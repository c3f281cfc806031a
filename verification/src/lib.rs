//! A node-graph runtime for media/signal processing pipelines.
//!
//! A pipeline is a directed graph of processing nodes connected by typed
//! links. Nodes exchange typed frames: bounded FIFO queues of scalars,
//! one-dimensional arrays, two-dimensional arrays, or packed pixels. The
//! scheduler drives the graph with a fixed-point tick loop, transferring
//! whole elements along links under a backpressure rule, and drains the
//! pipeline with a prune/finish protocol once the sources run dry.

pub mod element;
pub mod frame;
pub mod graph;
pub mod node;
pub mod project;
pub mod queue;
