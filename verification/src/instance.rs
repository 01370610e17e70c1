use vstd::prelude::*;

verus! {

/// Whether an instance is a game client or a server.
#[derive(Debug, Clone, Copy, PartialEq, Eq, Hash, Structural)]
pub enum InstanceKind {
    Client,
    Server,
}

impl InstanceKind {
    pub fn is_server(&self) -> (r: bool)
        ensures
            r == (*self == InstanceKind::Server),
    {
        match self {
            InstanceKind::Client => false,
            InstanceKind::Server => true,
        }
    }
}

/// An installed instance: its directory name and whether it is a server.
#[derive(Debug)]
pub struct Instance {
    pub name: String,
    pub kind: InstanceKind,
}

impl Clone for Instance {
    fn clone(&self) -> (r: Self)
        ensures
            r == *self,
    {
        Instance { name: self.name.clone(), kind: self.kind }
    }
}

impl View for Instance {
    type V = (Seq<char>, InstanceKind);

    open spec fn view(&self) -> (Seq<char>, InstanceKind) {
        (self.name@, self.kind)
    }
}

/// The value of an optional instance.
pub open spec fn opt_view(o: Option<Instance>) -> Option<(Seq<char>, InstanceKind)> {
    match o {
        Some(i) => Some(i@),
        None => None,
    }
}

impl Instance {
    pub fn new(name: &str, is_server: bool) -> (r: Instance)
        ensures
            r.name@ == name@,
            r.kind == (if is_server { InstanceKind::Server } else { InstanceKind::Client }),
    {
        Instance {
            name: name.to_string(),
            kind: if is_server { InstanceKind::Server } else { InstanceKind::Client },
        }
    }

    pub fn get_name(&self) -> (r: &str)
        ensures
            r@ == self.name@,
    {
        self.name.as_str()
    }

    pub fn is_server(&self) -> (r: bool)
        ensures
            r == (self.kind == InstanceKind::Server),
    {
        self.kind.is_server()
    }
}

} // verus!
