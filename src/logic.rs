pub mod strategy;
