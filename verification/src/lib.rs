//! A loader for smart-contract interface packages.
//!
//! A package is one JSON document: an object whose `contracts` member maps
//! each contract's name to an object with the members `abi` (any JSON value,
//! kept as its text), `bytecode` and `bytecode_runtime` (both JSON strings).
//! [`contracts`] reads that document into a [`Package`] and says exactly
//! which malformed inputs are refused, and with which error.

use vstd::prelude::*;

pub mod json;

use crate::json::{json_entries, json_string, object_entries, string_value};

verus! {

/// One contract's interface: its ABI description as JSON text, kept verbatim,
/// and its deployment and runtime bytecode strings.
#[derive(Debug)]
pub struct ContractInterface {
    pub abi: String,
    pub bytecode: String,
    pub bytecode_runtime: String,
}

/// The mathematical value of a [`ContractInterface`]: its three fields as
/// character sequences.
#[verifier::ext_equal]
pub ghost struct IfaceView {
    pub abi: Seq<char>,
    pub bytecode: Seq<char>,
    pub bytecode_runtime: Seq<char>,
}

impl View for ContractInterface {
    type V = IfaceView;

    open spec fn view(&self) -> IfaceView {
        IfaceView {
            abi: self.abi@,
            bytecode: self.bytecode@,
            bytecode_runtime: self.bytecode_runtime@,
        }
    }
}

impl DeepView for ContractInterface {
    type V = IfaceView;

    open spec fn deep_view(&self) -> IfaceView {
        self@
    }
}

/// A contract package: each contract's name paired with its interface,
/// ordered by name as the package document lists them.
#[derive(Debug)]
pub struct Package {
    pub contracts: Vec<(String, ContractInterface)>,
}

impl View for Package {
    type V = Seq<(Seq<char>, IfaceView)>;

    open spec fn view(&self) -> Seq<(Seq<char>, IfaceView)> {
        self.contracts.deep_view()
    }
}

/// Why a package document was refused.
#[derive(Debug, PartialEq, Eq, Structural, Clone, Copy)]
pub enum PkgError {
    /// The document is not a JSON object.
    NotAnObject,
    /// The top-level object has no `contracts` member.
    MissingContracts,
    /// The `contracts` member is not a JSON object.
    ContractsNotAnObject,
    /// Some contract's entry is not an object with an `abi` member and
    /// `bytecode` and `bytecode_runtime` string members.
    BadInterface,
}

/// The first entry named `key`, if any.
pub open spec fn find_member(es: Seq<(Seq<char>, Seq<char>)>, key: Seq<char>) -> Option<
    Seq<char>,
>
    decreases es.len(),
{
    if es.len() == 0 {
        None
    } else if es[0].0 == key {
        Some(es[0].1)
    } else {
        find_member(es.drop_first(), key)
    }
}

/// The interface that the text of one contract's entry describes, if it is an
/// object carrying `abi`, and `bytecode` and `bytecode_runtime` as strings.
pub open spec fn iface_of(text: Seq<char>) -> Option<IfaceView> {
    match json_entries(text) {
        None => None,
        Some(es) => match (
            find_member(es, "abi"@),
            find_member(es, "bytecode"@),
            find_member(es, "bytecode_runtime"@),
        ) {
            (Some(abi), Some(bc), Some(rt)) => match (json_string(bc), json_string(rt)) {
                (Some(b), Some(r)) => Some(
                    IfaceView { abi, bytecode: b, bytecode_runtime: r },
                ),
                _ => None,
            },
            _ => None,
        },
    }
}

/// The interfaces of all the entries, in order; `None` as soon as one entry
/// is malformed.
pub open spec fn ifaces_of(es: Seq<(Seq<char>, Seq<char>)>) -> Option<
    Seq<(Seq<char>, IfaceView)>,
>
    decreases es.len(),
{
    if es.len() == 0 {
        Some(Seq::empty())
    } else {
        match (ifaces_of(es.drop_last()), iface_of(es.last().1)) {
            (Some(pre), Some(iv)) => Some(pre.push((es.last().0, iv))),
            _ => None,
        }
    }
}

/// What reading a package document yields: the named interfaces, ordered by
/// name, or the exact error that the document's shape earns.
pub open spec fn package_result(s: Seq<char>) -> Result<
    Seq<(Seq<char>, IfaceView)>,
    PkgError,
> {
    match json_entries(s) {
        None => Err(PkgError::NotAnObject),
        Some(top) => match find_member(top, "contracts"@) {
            None => Err(PkgError::MissingContracts),
            Some(ct) => match json_entries(ct) {
                None => Err(PkgError::ContractsNotAnObject),
                Some(ces) => match ifaces_of(ces) {
                    None => Err(PkgError::BadInterface),
                    Some(ifs) => Ok(ifs),
                },
            },
        },
    }
}

/// Looks up the first entry named `key` among an object's entries.
pub fn member_text(entries: &Vec<(String, String)>, key: &str) -> (r: Option<String>)
    ensures
        r.deep_view() == find_member(entries.deep_view(), key@),
{
    let k: String = key.to_owned();
    let n: usize = entries.len();
    let mut i: usize = 0;
    proof {
        assert(entries.deep_view().skip(0) =~= entries.deep_view());
    }
    while i < n
        invariant
            n == entries.len(),
            0 <= i <= n,
            k@ == key@,
            find_member(entries.deep_view().skip(i as int), key@) == find_member(
                entries.deep_view(),
                key@,
            ),
        decreases n - i,
    {
        proof {
            assert(entries.deep_view().skip(i as int)[0] == entries.deep_view()[i as int]);
        }
        if entries[i].0 == k {
            return Some(entries[i].1.clone());
        }
        proof {
            assert(entries.deep_view().skip(i as int).drop_first() =~= entries.deep_view().skip(
                i as int + 1,
            ));
        }
        i += 1;
    }
    proof {
        assert(entries.deep_view().skip(n as int) =~= Seq::<(Seq<char>, Seq<char>)>::empty());
    }
    None
}

/// Reads one contract's interface from the text of its entry.
pub fn interface(text: &str) -> (r: Option<ContractInterface>)
    ensures
        r.deep_view() == iface_of(text@),
{
    match object_entries(text) {
        None => None,
        Some(es) => {
            let abi = member_text(&es, "abi");
            let bc = member_text(&es, "bytecode");
            let rt = member_text(&es, "bytecode_runtime");
            match (abi, bc, rt) {
                (Some(abi), Some(bc), Some(rt)) => {
                    match (string_value(bc.as_str()), string_value(rt.as_str())) {
                        (Some(b), Some(r)) => Some(
                            ContractInterface { abi, bytecode: b, bytecode_runtime: r },
                        ),
                        _ => None,
                    }
                },
                _ => None,
            }
        },
    }
}

/// Once a prefix of the entries has a malformed one, the whole list does.
proof fn lemma_ifaces_none(es: Seq<(Seq<char>, Seq<char>)>, j: int)
    requires
        0 <= j <= es.len(),
        ifaces_of(es.take(j)) is None,
    ensures
        ifaces_of(es) is None,
    decreases es.len() - j,
{
    if j == es.len() {
        assert(es.take(j) =~= es);
    } else {
        assert(es.take(j + 1).drop_last() =~= es.take(j));
        lemma_ifaces_none(es, j + 1);
    }
}

/// Reads a contract package from the text of its JSON document. Returns the
/// named interfaces ordered by name, or says exactly why the document's shape
/// was refused.
pub fn contracts(data: &str) -> (r: Result<Package, PkgError>)
    ensures
        (match r {
            Ok(p) => package_result(data@) == Ok::<Seq<(Seq<char>, IfaceView)>, PkgError>(p@),
            Err(e) => package_result(data@) == Err::<Seq<(Seq<char>, IfaceView)>, PkgError>(e),
        }),
{
    let top = match object_entries(data) {
        Some(t) => t,
        None => {
            return Err(PkgError::NotAnObject);
        },
    };
    let ct = match member_text(&top, "contracts") {
        Some(c) => c,
        None => {
            return Err(PkgError::MissingContracts);
        },
    };
    let entries = match object_entries(ct.as_str()) {
        Some(e) => e,
        None => {
            return Err(PkgError::ContractsNotAnObject);
        },
    };
    let ghost ces = entries.deep_view();
    let mut out: Vec<(String, ContractInterface)> = Vec::new();
    let n: usize = entries.len();
    let mut i: usize = 0;
    proof {
        assert(ces.take(0) =~= Seq::<(Seq<char>, Seq<char>)>::empty());
    }
    while i < n
        invariant
            n == entries.len(),
            0 <= i <= n,
            ces == entries.deep_view(),
            package_result(data@) == (match ifaces_of(ces) {
                Some(ifs) => Ok::<Seq<(Seq<char>, IfaceView)>, PkgError>(ifs),
                None => Err::<Seq<(Seq<char>, IfaceView)>, PkgError>(PkgError::BadInterface),
            }),
            ifaces_of(ces.take(i as int)) == Some(out.deep_view()),
        decreases n - i,
    {
        let name = entries[i].0.clone();
        match interface(entries[i].1.as_str()) {
            Some(iface) => {
                let ghost old_out = out.deep_view();
                out.push((name, iface));
                proof {
                    assert(ces.take(i as int + 1).drop_last() =~= ces.take(i as int));
                    assert(ces.take(i as int + 1).last() == ces[i as int]);
                    assert(out.deep_view() =~= old_out.push(
                        (ces[i as int].0, iface_of(ces[i as int].1)->Some_0),
                    ));
                }
            },
            None => {
                proof {
                    assert(ces.take(i as int + 1).drop_last() =~= ces.take(i as int));
                    lemma_ifaces_none(ces, i as int + 1);
                }
                return Err(PkgError::BadInterface);
            },
        }
        i += 1;
    }
    proof {
        assert(ces.take(n as int) =~= ces);
    }
    Ok(Package { contracts: out })
}

} // verus!
