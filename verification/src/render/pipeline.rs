//! Render pipelines as assets describe them.
use std::collections::HashMap;
use vstd::prelude::*;

pub mod serial;

use crate::assets::path::{
    is_absolute_path, regex_compiles, regex_is_match, resolved_path, AssetPath,
};
use crate::assets::LoadAssetError;
use crate::render::pipeline::serial::{PipelineDefinition, ShaderModuleDefinition};

verus! {

/// The pipeline that loads [RenderPipelineAsset]s.
pub struct RenderPipelineAssetPipeline;

/// A render pipeline definition together with the source of each shader module it names.
pub struct RenderPipelineAsset {
    pub(crate) shader_modules: HashMap<String, String>,
    pub(crate) definition: PipelineDefinition,
}

impl RenderPipelineAsset {
    pub closed spec fn spec_shader_modules(self) -> HashMap<String, String> {
        self.shader_modules
    }

    pub closed spec fn spec_definition(self) -> PipelineDefinition {
        self.definition
    }

    pub fn new(shader_modules: HashMap<String, String>, definition: PipelineDefinition) -> (r: Self)
        ensures
            r.spec_shader_modules() == shader_modules,
            r.spec_definition() == definition,
    {
        RenderPipelineAsset { shader_modules, definition }
    }
}


/// `path` is made of the characters that asset paths allow.
pub open spec fn path_allowed(path: Seq<char>) -> bool {
    regex_compiles(AssetPath::ALLOWED_CHARS@) && regex_is_match(AssetPath::ALLOWED_CHARS@, path)
}

/// What loading the first `n` of `modules` for the pipeline asset at `pipeline` decides, read
/// by read: the modules to read, as (name, resolved path), in order, and the failure that ends
/// the loading, if any, as (whether the path is invalid rather than not found, the module's
/// path). A module whose name was read before is skipped; a module path that is not a valid
/// asset path, or that is relative to a relative pipeline path, ends the loading.
pub open spec fn module_plan(pipeline: Seq<char>, modules: Seq<ShaderModuleDefinition>, n: int) -> (
    Seq<(Seq<char>, Seq<char>)>,
    Option<(bool, Seq<char>)>,
)
    decreases n,
{
    if n <= 0 {
        (Seq::empty(), None)
    } else {
        let before = module_plan(pipeline, modules, n - 1);
        let module = modules[n - 1];
        if before.1 is Some {
            before
        } else if exists|k: int| 0 <= k < before.0.len() && (#[trigger] before.0[k]).0 == module.name@ {
            before
        } else if !path_allowed(module.path@) {
            (before.0, Some((true, module.path@)))
        } else if is_absolute_path(module.path@) {
            (before.0.push((module.name@, module.path@)), None)
        } else if !is_absolute_path(pipeline) {
            (before.0, Some((false, module.path@)))
        } else {
            (before.0.push((module.name@, resolved_path(pipeline, module.path@))), None)
        }
    }
}

/// Once the loading has failed, later modules change nothing.
proof fn lemma_plan_failure_stays(
    pipeline: Seq<char>,
    modules: Seq<ShaderModuleDefinition>,
    n: int,
    m: int,
)
    requires
        0 <= n <= m,
        module_plan(pipeline, modules, n).1 is Some,
    ensures
        module_plan(pipeline, modules, m) == module_plan(pipeline, modules, n),
    decreases m - n,
{
    if n < m {
        lemma_plan_failure_stays(pipeline, modules, n, m - 1);
    }
}

/// A shader module to read: its name, and the path of its source.
pub struct ModuleRead {
    pub name: String,
    pub path: AssetPath,
}

/// The (name, path) pairs of `reads`.
pub open spec fn read_list(reads: Seq<ModuleRead>) -> Seq<(Seq<char>, Seq<char>)> {
    reads.map_values(|read: ModuleRead| (read.name@, read.path@))
}

/// Whether a module named `name` is among `reads`.
fn already_read(reads: &Vec<ModuleRead>, name: &String) -> (r: bool)
    ensures
        r == exists|k: int| 0 <= k < reads@.len() && (#[trigger] read_list(reads@)[k]).0 == name@,
{
    let mut k: usize = 0;
    while k < reads.len()
        invariant
            0 <= k <= reads@.len(),
            forall|j: int| 0 <= j < k ==> (#[trigger] read_list(reads@)[j]).0 != name@,
        decreases reads@.len() - k,
    {
        if reads[k].name == *name {
            assert(read_list(reads@)[k as int].0 == name@);
            return true;
        }
        k += 1;
    }
    false
}

/// The decisions of loading the shader modules of the pipeline asset at `pipeline`, made before
/// any read: the modules to read, in order, and the error that the loading ends with once those
/// reads have succeeded, if any (see [module_plan]).
pub fn plan_module_reads(pipeline: &AssetPath, modules: &Vec<ShaderModuleDefinition>) -> (r: (
    Vec<ModuleRead>,
    Option<LoadAssetError>,
))
    ensures
        read_list(r.0@) == module_plan(pipeline@, modules@, modules@.len() as int).0,
        match r.1 {
            None => module_plan(pipeline@, modules@, modules@.len() as int).1 is None,
            Some(LoadAssetError::InvalidPath(error)) => module_plan(
                pipeline@,
                modules@,
                modules@.len() as int,
            ).1 == Some((true, error@)),
            Some(LoadAssetError::NotFound(path)) => module_plan(
                pipeline@,
                modules@,
                modules@.len() as int,
            ).1 == Some((false, path@)),
            Some(_) => false,
        },
{
    let mut reads: Vec<ModuleRead> = Vec::new();
    let mut index: usize = 0;
    while index < modules.len()
        invariant
            0 <= index <= modules@.len(),
            module_plan(pipeline@, modules@, index as int) == (read_list(reads@), None::<(bool, Seq<char>)>),
        decreases modules@.len() - index,
    {
        let module = &modules[index];
        let ghost before = read_list(reads@);
        if already_read(&reads, &module.name) {
            index += 1;
        } else {
            match AssetPath::new(module.path.as_str()) {
                Err(error) => {
                    proof {
                        lemma_plan_failure_stays(pipeline@, modules@, index + 1, modules@.len() as int);
                    }
                    return (reads, Some(LoadAssetError::InvalidPath(error)));
                },
                Ok(named) => {
                    if named.is_absolute() {
                        reads.push(ModuleRead { name: module.name.clone(), path: named });
                        assert(read_list(reads@) =~= before.push((module.name@, module.path@)));
                    } else if pipeline.is_relative() {
                        proof {
                            lemma_plan_failure_stays(pipeline@, modules@, index + 1, modules@.len() as int);
                        }
                        return (reads, Some(LoadAssetError::NotFound(named)));
                    } else {
                        match pipeline.resolve(named) {
                            Some(resolved) => {
                                reads.push(ModuleRead { name: module.name.clone(), path: resolved });
                                assert(read_list(reads@) =~= before.push(
                                    (module.name@, resolved_path(pipeline@, module.path@)),
                                ));
                            },
                            None => {},
                        }
                    }
                    index += 1;
                },
            }
        }
    }
    (reads, None)
}

} // verus!
