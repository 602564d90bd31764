use vstd::prelude::*;

verus! {

/// One dependency: its name, a version string (the declared constraint, or
/// the resolved release), and its features joined by commas.
#[derive(Debug)]
pub struct Crate {
    pub name: String,
    pub version: String,
    pub features: String,
}

/// What a dependency record says, as sequences of characters.
pub struct DependencyView {
    pub name: Seq<char>,
    pub version: Seq<char>,
    pub features: Seq<char>,
}

impl View for Crate {
    type V = DependencyView;

    open spec fn view(&self) -> DependencyView {
        DependencyView { name: self.name@, version: self.version@, features: self.features@ }
    }
}

impl Crate {
    /// A dependency with the given name, no version and no features.
    pub fn new_by_name(name: String) -> (r: Crate)
        ensures
            r.name@ == name@,
            r.version@ == Seq::<char>::empty(),
            r.features@ == Seq::<char>::empty(),
    {
        Crate { name, version: String::new(), features: String::new() }
    }
}

} // verus!
