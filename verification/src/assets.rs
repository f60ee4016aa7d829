//! Asset paths and the errors of asset loading.
use vstd::prelude::*;

pub mod path;

use crate::assets::path::{AssetPath, InvalidCharacters};

verus! {

#[verifier::external_type_specification]
#[verifier::external_body]
pub struct ExTypeId(std::any::TypeId);

/// Why an asset could not be loaded.
pub enum LoadAssetError {
    /// No pipeline loads assets of this type.
    UnknownType(std::any::TypeId),
    /// The source holds no asset at this path.
    NotFound(AssetPath),
    /// A path named by an asset is not a valid asset path.
    InvalidPath(InvalidCharacters),
    /// The source failed for a reason it did not give.
    UnknownError(AssetPath),
    /// A pipeline failed; the message describes why.
    Other(String),
}

impl LoadAssetError {
    /// The error of a pipeline, described by how `err` displays.
    pub fn other<T: std::fmt::Display>(err: T) -> (r: LoadAssetError)
        ensures
            r matches LoadAssetError::Other(message) && vstd::string::to_string_from_display_ensures::<
                T,
            >(&err, message),
    {
        LoadAssetError::Other(err.to_string())
    }
}

} // verus!
