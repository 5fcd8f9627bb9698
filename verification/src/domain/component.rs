use vstd::prelude::*;

verus! {

/// The kind of component in an agent environment.
#[derive(Debug, Clone, Copy, PartialEq, Eq, Hash, Structural)]
pub enum ComponentKind {
    Config,
    Memory,
    Skills,
    Extensions,
    Themes,
    Secrets,
}

/// All component kinds in canonical order.
pub open spec fn all_component_kinds() -> Seq<ComponentKind> {
    seq![
        ComponentKind::Config,
        ComponentKind::Memory,
        ComponentKind::Skills,
        ComponentKind::Extensions,
        ComponentKind::Themes,
        ComponentKind::Secrets,
    ]
}

/// The directory name of a component inside a bundle.
pub open spec fn component_dir_name(kind: ComponentKind) -> Seq<char> {
    match kind {
        ComponentKind::Config => "config"@,
        ComponentKind::Memory => "memory"@,
        ComponentKind::Skills => "skills"@,
        ComponentKind::Extensions => "extensions"@,
        ComponentKind::Themes => "themes"@,
        ComponentKind::Secrets => "secrets"@,
    }
}

impl ComponentKind {
    /// All component kinds in canonical order.
    pub fn all() -> (r: Vec<ComponentKind>)
        ensures
            r@ == all_component_kinds(),
    {
        let r = vec![
            ComponentKind::Config,
            ComponentKind::Memory,
            ComponentKind::Skills,
            ComponentKind::Extensions,
            ComponentKind::Themes,
            ComponentKind::Secrets,
        ];
        assert(r@ =~= all_component_kinds());
        r
    }

    /// Directory name for this component in the bundle.
    pub fn dir_name(&self) -> (r: &'static str)
        ensures
            r@ == component_dir_name(*self),
    {
        match self {
            ComponentKind::Config => "config",
            ComponentKind::Memory => "memory",
            ComponentKind::Skills => "skills",
            ComponentKind::Extensions => "extensions",
            ComponentKind::Themes => "themes",
            ComponentKind::Secrets => "secrets",
        }
    }
}

/// State of a component in a bundle.
#[derive(Debug, Clone, Copy, PartialEq, Eq, Structural)]
pub struct ComponentState {
    /// What kind of component this is.
    pub kind: ComponentKind,
    /// Whether this component has been packed into the bundle.
    pub packed: bool,
    /// Number of files in this component.
    pub file_count: u64,
}

impl ComponentState {
    pub fn new(kind: ComponentKind) -> (r: Self)
        ensures
            r == (ComponentState { kind, packed: false, file_count: 0 }),
    {
        ComponentState { kind, packed: false, file_count: 0 }
    }

    pub fn packed(kind: ComponentKind, file_count: u64) -> (r: Self)
        ensures
            r == (ComponentState { kind, packed: true, file_count }),
    {
        ComponentState { kind, packed: true, file_count }
    }
}

} // verus!
