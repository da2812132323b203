//! A declarative model of the binary layout of structured data.
//!
//! Scalar encodings (sized, signed, endian integers, floats, bitfields and
//! enumerations) are composed into sequential (`Sequence`) and overlapping (`All`)
//! structures, and further into packet- and protocol-level descriptions that
//! branch on decoded discriminant values.  From such a description the
//! library derives the total byte footprint of a structure and the flattened
//! list of named fields with their absolute byte offsets.

pub mod layout;
pub mod packet;
pub mod prim;
pub mod value;
