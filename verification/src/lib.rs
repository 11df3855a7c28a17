//! Address-space bootstrap generator: given the loadable segments of a kernel
//! image and the symbol slots of a loader image, computes the kernel's
//! virtual-to-physical mapping parameters, synthesizes a minimal multi-level
//! hardware translation-table hierarchy establishing that mapping, and patches
//! the resulting binary table images plus the kernel entry address back into
//! the loader image.

pub mod addr;
pub mod image;
pub mod table;
pub mod builder;
pub mod manager;
