//! The WIT interfaces that plugins import and export, and what a workload item brings.
use vstd::prelude::*;
use crate::table::{copy_config, Config, Table};
use crate::text::{same, views};

verus! {

/// A set of WIT interfaces of one package, with the static configuration given for it.
pub struct WitInterface {
    pub namespace: String,
    pub package: String,
    pub interfaces: Vec<String>,
    pub version: String,
    pub config: Config,
}

pub struct WitWorld {
    pub imports: Vec<WitInterface>,
    pub exports: Vec<WitInterface>,
}

impl WitInterface {
    /// Names `namespace:package/interfaces@version`.
    pub open spec fn names(
        &self,
        namespace: Seq<char>,
        package: Seq<char>,
        interfaces: Seq<Seq<char>>,
        version: Seq<char>,
    ) -> bool {
        &&& self.namespace@ == namespace
        &&& self.package@ == package
        &&& views(self.interfaces@) == interfaces
        &&& self.version@ == version
    }

    pub open spec fn of_package(&self, namespace: Seq<char>, package: Seq<char>) -> bool {
        self.namespace@ == namespace && self.package@ == package
    }

    /// An interface set of one package, without configuration.
    pub fn of(namespace: &str, package: &str, interfaces: Vec<String>, version: &str) -> (r:
        WitInterface)
        ensures
            r.names(namespace@, package@, views(interfaces@), version@),
            r.config@ == Map::<Seq<char>, String>::empty(),
    {
        WitInterface {
            namespace: namespace.to_owned(),
            package: package.to_owned(),
            interfaces,
            version: version.to_owned(),
            config: Table::new(),
        }
    }
}

/// A list of one text.
pub fn one(a: &str) -> (r: Vec<String>)
    ensures
        views(r@) == seq![a@],
{
    let mut v: Vec<String> = Vec::new();
    v.push(a.to_owned());
    assert(views(v@) =~= seq![a@]);
    v
}

/// A list of two texts.
pub fn two(a: &str, b: &str) -> (r: Vec<String>)
    ensures
        views(r@) == seq![a@, b@],
{
    let mut v: Vec<String> = Vec::new();
    v.push(a.to_owned());
    v.push(b.to_owned());
    assert(views(v@) =~= seq![a@, b@]);
    v
}

/// A list of three texts.
pub fn three(a: &str, b: &str, c: &str) -> (r: Vec<String>)
    ensures
        views(r@) == seq![a@, b@, c@],
{
    let mut v: Vec<String> = Vec::new();
    v.push(a.to_owned());
    v.push(b.to_owned());
    v.push(c.to_owned());
    assert(views(v@) =~= seq![a@, b@, c@]);
    v
}

/// The first interface of a package.
pub open spec fn first_of_package(
    interfaces: Seq<WitInterface>,
    namespace: Seq<char>,
    package: Seq<char>,
) -> Option<WitInterface>
    decreases interfaces.len(),
{
    if interfaces.len() == 0 {
        None
    } else if interfaces[0].of_package(namespace, package) {
        Some(interfaces[0])
    } else {
        first_of_package(interfaces.drop_first(), namespace, package)
    }
}

/// The static configuration that a workload item brings for a package: that of the first
/// interface of the package, or none where it names no such interface.
pub fn bound_config(interfaces: &Vec<WitInterface>, namespace: &str, package: &str) -> (r: Option<
    Config,
>)
    ensures
        match r {
            Some(c) => match first_of_package(interfaces@, namespace@, package@) {
                Some(i) => c@ == i.config@ && c.pairs() == i.config.pairs(),
                None => false,
            },
            None => first_of_package(interfaces@, namespace@, package@) is None,
        },
{
    let mut i: usize = 0;
    assert(interfaces@.skip(0) == interfaces@);
    while i < interfaces.len()
        invariant
            i <= interfaces@.len(),
            first_of_package(interfaces@, namespace@, package@) == first_of_package(
                interfaces@.skip(i as int),
                namespace@,
                package@,
            ),
        decreases interfaces@.len() - i,
    {
        assert(interfaces@.skip(i as int).drop_first() == interfaces@.skip(i + 1));
        let item = &interfaces[i];
        if same(&item.namespace, namespace) && same(&item.package, package) {
            return Some(copy_config(&item.config));
        }
        i = i + 1;
    }
    None
}

// ---- Laws ----

/// The interface of a package is the first one that a component has of it.
pub proof fn the_first_interface_counts(
    interfaces: Seq<WitInterface>,
    namespace: Seq<char>,
    package: Seq<char>,
)
    ensures
        match first_of_package(interfaces, namespace, package) {
            Some(f) => exists|i: int|
                0 <= i < interfaces.len() && #[trigger] interfaces[i] == f && f.namespace@ == namespace
                    && f.package@ == package && forall|k: int|
                    0 <= k < i ==> (#[trigger] interfaces[k]).namespace@ != namespace
                        || interfaces[k].package@ != package,
            None => forall|k: int|
                0 <= k < interfaces.len() ==> (#[trigger] interfaces[k]).namespace@ != namespace
                    || interfaces[k].package@ != package,
        },
    decreases interfaces.len(),
{
    if interfaces.len() > 0 {
        let d = interfaces.drop_first();
        the_first_interface_counts(d, namespace, package);
        if interfaces[0].of_package(namespace, package) {
            assert(interfaces[0] == first_of_package(interfaces, namespace, package)->0);
        } else {
            match first_of_package(d, namespace, package) {
                Some(f) => {
                    let i = choose|i: int|
                        0 <= i < d.len() && #[trigger] d[i] == f && f.namespace@ == namespace
                            && f.package@ == package && forall|k: int|
                            0 <= k < i ==> (#[trigger] d[k]).namespace@ != namespace || d[k].package@
                                != package;
                    assert(interfaces[i + 1] == f);
                    assert forall|k: int| 0 <= k < i + 1 implies (#[trigger] interfaces[k]).namespace@
                        != namespace || interfaces[k].package@ != package by {
                        if k > 0 {
                            assert(d[k - 1] == interfaces[k]);
                        }
                    }
                },
                None => {
                    assert forall|k: int| 0 <= k < interfaces.len() implies (
                    #[trigger] interfaces[k]).namespace@ != namespace || interfaces[k].package@
                        != package by {
                        if k > 0 {
                            assert(d[k - 1] == interfaces[k]);
                        }
                    }
                },
            }
        }
    }
}

/// An interface is named by its namespace, its package, its interfaces in order and its version.
pub proof fn interfaces_are_named_whole(
    w: WitInterface,
    namespace: Seq<char>,
    package: Seq<char>,
    interfaces: Seq<Seq<char>>,
    version: Seq<char>,
    i: int,
)
    requires
        w.names(namespace, package, interfaces, version),
        0 <= i < interfaces.len(),
    ensures
        w.namespace@ == namespace,
        w.package@ == package,
        w.version@ == version,
        w.interfaces@.len() == interfaces.len(),
        w.interfaces@[i]@ == interfaces[i],
        w.of_package(namespace, package),
{
    assert(views(w.interfaces@)[i] == w.interfaces@[i]@);
}

} // verus!
