//! The settings of one run of the generators.

use crate::generator::typer::Typer;
use vstd::prelude::*;

verus! {

/// Where the generated files go, and the registry of the types they use.
pub struct Spec {
    pub root: String,
    pub cpp_root: String,
    pub typer: Typer,
    pub java_out_folder: Option<String>,
    pub java_package: Option<String>,
    pub java_class_access_modifier: String,
}

impl Spec {
    /// The settings with the output folder `root`, the folder `cpp_root`
    /// below it for C++ files, and no settings for Java.
    pub fn new(root: String, cpp_root: String, typer: Typer) -> (s: Spec)
        ensures
            s.root == root,
            s.cpp_root == cpp_root,
            s.typer == typer,
            s.java_out_folder is None,
            s.java_package is None,
            s.java_class_access_modifier@ == Seq::<char>::empty(),
    {
        Spec {
            root,
            cpp_root,
            typer,
            java_out_folder: None,
            java_package: None,
            java_class_access_modifier: String::new(),
        }
    }
}

} // verus!
