//! What holds of the library as a whole, proved from what its functions promise.
pub mod bus;
pub mod codes;
pub mod descriptions;
pub mod devices;
pub mod grants;
pub mod identifiers;
pub mod identity;
pub mod landing;
pub mod natives;
pub mod outcomes;
pub mod plugging;
pub mod selection;
pub mod transport;
pub mod views;
pub mod writes;
