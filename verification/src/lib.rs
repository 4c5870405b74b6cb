//! Column appenders: they turn a stream of scalars, optional values, lists and
//! records into the flat columns of a Parquet file. Every leaf column buffers
//! its values together with the definition level and the repetition level of
//! each occurrence, as the Dremel encoding of nested data asks, and hands the
//! buffered batch to a column writer when it is flushed.
pub mod array;
pub mod generic;
pub mod helpers;
pub mod interface;
pub mod laws;
pub mod level_index;
pub mod merged;
pub mod myfrom;
pub mod real_memory_size;
pub mod writer;
