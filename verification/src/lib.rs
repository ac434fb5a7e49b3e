//! A compositional layer-definition library for neural networks: typed module
//! building blocks (linear, convolution, normalization, activations,
//! residual and two-branch combinators, sequential containers) over an exact
//! integer tensor engine, with verified build, reset, forward, update,
//! zero-gradient and serialization traversals.

pub mod avg_pool_global;
pub mod base;
pub mod batch_norm2d;
pub mod bias1d;
pub mod conv2d;
pub mod device;
pub mod error;
pub mod generalized_add;
pub mod grads;
pub mod laws;
pub mod layer_norm1d;
pub mod linalg;
pub mod linear;
pub mod matmul;
pub mod max_pool_2d;
pub mod norm;
pub mod ops;
pub mod relu;
pub mod residual_add;
pub mod serialize;
pub mod sgd;
pub mod st;
pub mod tensor;
pub mod transformer;
pub mod tuples;
pub mod vecs;
