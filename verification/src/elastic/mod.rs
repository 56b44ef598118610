pub mod ring;
