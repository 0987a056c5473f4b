pub mod animations;
pub mod colors;
pub mod progression;
pub mod random;
pub mod rainbow;
pub mod utility;
