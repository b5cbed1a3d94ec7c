//! Where the application keeps its data.
use vstd::prelude::*;

verus! {

/// The folders and files of the application's data and bundled resources.
#[derive(Debug, Clone)]
pub struct AppPaths {
    pub data_dir: String,
    pub database_path: String,
    pub thumbnail_dir: String,
    pub preview_dir: String,
    pub log_dir: String,
    pub semantic_model_dir: String,
    pub siglip2_model_dir: String,
    pub subject_model_dir: String,
    pub face_model_dir: String,
    pub onnx_runtime_path: String,
}

} // verus!
