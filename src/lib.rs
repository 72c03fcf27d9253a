pub mod capacity;
pub mod storage;
pub mod ring;
pub mod masking;
pub mod subtracting;
pub mod sparse_masking;
