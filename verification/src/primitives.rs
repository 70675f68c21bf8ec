pub mod control;
pub mod isometry;
pub mod rotation;

pub use self::control::{Control, LinearAndAngular, SlewRate};
pub use self::isometry::Isometry;
pub use self::rotation::{Rotation, RotationError};
