//! The table of services that a stream can be opened for, and lookup by name.

use vstd::prelude::*;
use vstd::string::StringSliceAdditionalSpecFns;

verus! {

broadcast use vstd::utf8::group_utf8_lib;

/// Which end of the virtual channel a component runs on.
#[derive(Clone, Copy, Debug, PartialEq, Eq, Structural)]
pub enum Kind {
    Backend,
    Frontend,
}

/// A frontend TCP listener of a service.
#[derive(Clone, Copy, Debug)]
pub struct FrontendTcp {
    pub default_port: u16,
}

/// What a service offers on the frontend side.
#[derive(Clone, Copy, Debug)]
pub struct Frontend {
    pub tcp: Option<FrontendTcp>,
}

impl Frontend {
    pub fn tcp(&self) -> (r: Option<FrontendTcp>)
        ensures
            r == self.tcp,
    {
        self.tcp
    }
}

/// A service descriptor. `backend` tells whether the backend runs a handler
/// for streams of this service.
#[derive(Clone, Copy, Debug)]
pub struct Service {
    pub internal: bool,
    pub name: &'static str,
    pub frontend: Option<Frontend>,
    pub backend: bool,
}

impl Service {
    pub fn internal(&self) -> (r: bool)
        ensures
            r == self.internal,
    {
        self.internal
    }

    pub fn name(&self) -> (r: &'static str)
        ensures
            r == self.name,
    {
        self.name
    }

    pub fn frontend(&self) -> (r: Option<Frontend>)
        ensures
            r == self.frontend,
    {
        self.frontend
    }
}

/// A service with a frontend TCP listener on `port`.
pub open spec fn spec_service(internal: bool, name: &'static str, port: u16, backend: bool) -> Service {
    Service {
        internal,
        name,
        frontend: Some(Frontend { tcp: Some(FrontendTcp { default_port: port }) }),
        backend,
    }
}

/// The services, in the order of the table.
pub open spec fn spec_services() -> Seq<Service> {
    seq![
        spec_service(false, "clipboard", 3032, true),
        spec_service(false, "command", 3031, true),
        spec_service(true, "forward", 0, true),
        spec_service(false, "ftp", 2021, true),
        spec_service(false, "input", 0, false),
        spec_service(false, "socks5", 1080, true),
        spec_service(false, "stage0", 1082, false),
    ]
}

fn make_service(internal: bool, name: &'static str, port: u16, backend: bool) -> (r: Service)
    ensures
        r == spec_service(internal, name, port, backend),
{
    Service {
        internal,
        name,
        frontend: Some(Frontend { tcp: Some(FrontendTcp { default_port: port }) }),
        backend,
    }
}

/// The table of services.
pub fn services() -> (r: Vec<Service>)
    ensures
        r@ == spec_services(),
{
    let v = vec![
        make_service(false, "clipboard", 3032, true),
        make_service(false, "command", 3031, true),
        make_service(true, "forward", 0, true),
        make_service(false, "ftp", 2021, true),
        make_service(false, "input", 0, false),
        make_service(false, "socks5", 1080, true),
        make_service(false, "stage0", 1082, false),
    ];
    assert(v@ =~= spec_services());
    v
}

/// Whether two byte strings are equal.
pub fn bytes_eq(a: &[u8], b: &[u8]) -> (r: bool)
    ensures
        r == (a@ == b@),
{
    if a.len() != b.len() {
        return false;
    }
    let mut i: usize = 0;
    while i < a.len()
        invariant
            a@.len() == b@.len(),
            i <= a@.len(),
            a@.subrange(0, i as int) == b@.subrange(0, i as int),
        decreases a@.len() - i,
    {
        if a[i] != b[i] {
            assert(a@[i as int] != b@[i as int]);
            return false;
        }
        i = i + 1;
        assert(a@.subrange(0, i as int) =~= a@.subrange(0, i - 1).push(a@[i - 1]));
        assert(b@.subrange(0, i as int) =~= b@.subrange(0, i - 1).push(b@[i - 1]));
    }
    assert(a@ =~= a@.subrange(0, i as int));
    assert(b@ =~= b@.subrange(0, i as int));
    true
}

/// The service whose name is exactly the UTF-8 string `bytes`, if any.
pub fn lookup_bytes(bytes: &[u8]) -> (r: Option<Service>)
    ensures
        r is Some <==> exists|i: int|
            0 <= i < spec_services().len() && (#[trigger] spec_services()[i]).name.spec_bytes()
                == bytes@,
        r is Some ==> exists|i: int|
            0 <= i < spec_services().len() && r == Some(#[trigger] spec_services()[i])
                && spec_services()[i].name.spec_bytes() == bytes@,
{
    let table = services();
    let mut i: usize = 0;
    while i < table.len()
        invariant
            table@ == spec_services(),
            i <= table@.len(),
            forall|j: int| 0 <= j < i ==> (#[trigger] spec_services()[j]).name.spec_bytes() != bytes@,
        decreases table@.len() - i,
    {
        let s = table[i];
        if bytes_eq(s.name.as_bytes(), bytes) {
            return Some(s);
        }
        i = i + 1;
    }
    None
}

/// The service named `name`, if any.
pub fn lookup(name: &str) -> (r: Option<Service>)
    ensures
        r is Some <==> exists|i: int|
            0 <= i < spec_services().len() && (#[trigger] spec_services()[i]).name@ == name@,
        r is Some ==> exists|i: int|
            0 <= i < spec_services().len() && r == Some(#[trigger] spec_services()[i])
                && spec_services()[i].name@ == name@,
{
    let r = lookup_bytes(name.as_bytes());
    proof {
        assert forall|i: int| 0 <= i < spec_services().len() implies ((#[trigger] spec_services()[i]).name.spec_bytes()
            == name.spec_bytes() <==> spec_services()[i].name@ == name@) by {
            let a = spec_services()[i].name;
            if a.spec_bytes() == name.spec_bytes() {
                assert(vstd::utf8::decode_utf8(vstd::utf8::encode_utf8(a@)) == a@);
                assert(vstd::utf8::decode_utf8(vstd::utf8::encode_utf8(name@)) == name@);
            }
        }
    }
    r
}

} // verus!
