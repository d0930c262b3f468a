pub mod password;
