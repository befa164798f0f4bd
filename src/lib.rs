//! Sphere-tracing renderer core: the decisions of the ray marcher and of the
//! stratified pixel sampler, stated and proved over integers and generic state.
pub mod sampler;
pub mod march;
pub mod params;
