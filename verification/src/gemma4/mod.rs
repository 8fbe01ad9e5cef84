//! A text decoder whose layers share K/V: its masks, its layers and its forward
//! passes.
pub mod attention;
pub mod attention_laws;
pub mod decoder_layer;
pub mod heads_laws;
pub mod ids;
pub mod layer_laws;
pub mod mask;
pub mod meaning;
pub mod model;
pub mod model_laws;
pub mod pass_laws;
pub mod program;
pub mod rope;
pub mod row_laws;
