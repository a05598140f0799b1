//! Columnar in-memory frames: typed columns that stay aligned under
//! row-selecting operations, with contracts over sequence models.

pub mod codec;
pub mod column;
pub mod comp;
pub mod decimal;
pub mod discrete;
pub mod frame;
pub mod mask;
pub mod numeric;
pub mod scalar;
pub mod table;
pub mod text;
