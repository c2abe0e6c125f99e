//! Builds for several targets: which outputs a build of each target yields.

use vstd::prelude::*;
use vstd::string::*;
use crate::error::ForgeKitError;
use crate::text::join3;

verus! {

/// Build target
#[derive(Debug, Clone)]
pub struct BuildTarget {
    pub name: String,
    pub triple: String,
}

/// Build output
#[derive(Debug, Clone)]
pub struct BuildOutput {
    pub target: String,
    pub output_path: String,
    pub success: bool,
}

/// Multi-target builder
#[derive(Debug, Clone)]
pub struct MultiTargetBuilder {
    targets: Vec<BuildTarget>,
}

/// Whether `out` is the output of a build for `target`.
pub open spec fn is_output_for(out: BuildOutput, target: Seq<char>) -> bool {
    &&& out.target@ == target
    &&& out.output_path@ == "target/"@ + target + "/release"@
    &&& out.success
}

impl MultiTargetBuilder {
    /// The targets that this builder builds for, in order.
    pub closed spec fn targets(&self) -> Seq<BuildTarget> {
        self.targets@
    }

    /// A builder for `targets`.
    pub fn new(targets: Vec<BuildTarget>) -> (r: Self)
        ensures
            r.targets() == targets@,
    {
        MultiTargetBuilder { targets }
    }

    /// The number of targets.
    pub fn target_count(&self) -> (r: usize)
        ensures
            r == self.targets().len(),
    {
        self.targets.len()
    }

    /// The output of a build for `target`. `has_manifest` says whether the
    /// project directory holds a `Cargo.toml`; without one there is no
    /// project to build.
    pub fn build_target(&self, has_manifest: bool, target: &str) -> (r: Result<
        BuildOutput,
        ForgeKitError,
    >)
        ensures
            has_manifest ==> r is Ok && is_output_for(r->Ok_0, target@),
            !has_manifest ==> r is Err && r->Err_0 is ProjectNotFound && r->Err_0.detail()
                == "Cargo.toml not found"@,
    {
        if !has_manifest {
            return Err(ForgeKitError::ProjectNotFound(String::from_str("Cargo.toml not found")));
        }
        Ok(
            BuildOutput {
                target: String::from_str(target),
                output_path: join3("target/", target, "/release"),
                success: true,
            },
        )
    }

    /// The outputs of a build for every target, in the order of the targets.
    pub fn build_all(&self, has_manifest: bool) -> (r: Result<Vec<BuildOutput>, ForgeKitError>)
        ensures
            has_manifest || self.targets().len() == 0 ==> r is Ok && r->Ok_0@.len()
                == self.targets().len() && forall|i: int|
                0 <= i < self.targets().len() ==> is_output_for(
                    #[trigger] r->Ok_0@[i],
                    self.targets()[i].name@,
                ),
            !has_manifest && self.targets().len() > 0 ==> r is Err && r->Err_0 is ProjectNotFound
                && r->Err_0.detail() == "Cargo.toml not found"@,
    {
        let mut outputs: Vec<BuildOutput> = Vec::new();
        let mut i: usize = 0;
        while i < self.targets.len()
            invariant
                i <= self.targets@.len(),
                outputs@.len() == i,
                i > 0 ==> has_manifest,
                forall|k: int|
                    0 <= k < i ==> is_output_for(#[trigger] outputs@[k], self.targets()[k].name@),
            decreases self.targets@.len() - i,
        {
            match self.build_target(has_manifest, self.targets[i].name.as_str()) {
                Ok(output) => {
                    outputs.push(output);
                },
                Err(e) => {
                    return Err(e);
                },
            }
            i += 1;
        }
        Ok(outputs)
    }
}

} // verus!
