//! The kinds of project that can be started from a template.

use vstd::prelude::*;

verus! {

/// The kind of project a template sets up.
#[derive(Debug, Clone, Copy, PartialEq, Eq, Structural)]
pub enum TemplateType {
    /// Basic application template
    Basic,
    /// GUI application template
    Gui,
    /// CLI tool template
    Cli,
    /// Service/daemon template
    Service,
    /// Plugin template
    Plugin,
}

impl TemplateType {
    /// The name of each kind, in lower case.
    pub open spec fn label(self) -> Seq<char> {
        match self {
            TemplateType::Basic => "basic"@,
            TemplateType::Gui => "gui"@,
            TemplateType::Cli => "cli"@,
            TemplateType::Service => "service"@,
            TemplateType::Plugin => "plugin"@,
        }
    }

    /// The name of this kind, in lower case.
    pub fn as_str(&self) -> (r: &'static str)
        ensures
            r@ == self.label(),
    {
        match self {
            TemplateType::Basic => "basic",
            TemplateType::Gui => "gui",
            TemplateType::Cli => "cli",
            TemplateType::Service => "service",
            TemplateType::Plugin => "plugin",
        }
    }
}

} // verus!
