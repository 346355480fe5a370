pub mod motor;
