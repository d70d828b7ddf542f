//! The invocation context: which accounts an invocation was handed, and
//! which of them are signers or writable.
//!
//! Privilege extension is modelled explicitly: a nested invocation is built
//! from the outer one, and every forwarded account keeps the flags the outer
//! caller granted it.  A keyless controller never appears as a keypair
//! signer here; its authorization is the seed re-derivation check in the
//! derivation module.

use vstd::prelude::*;

use crate::address::Address;

verus! {

/// Mathematical image of one account entry.
#[verifier::ext_equal]
pub struct MetaModel {
    pub address: Seq<u8>,
    pub signer: bool,
    pub writable: bool,
}

/// One account as an invocation sees it: its address and the flags granted
/// by the caller.
pub struct ContextAccount {
    pub address: Address,
    pub signer: bool,
    pub writable: bool,
}

impl View for ContextAccount {
    type V = MetaModel;

    open spec fn view(&self) -> MetaModel {
        MetaModel { address: self.address@, signer: self.signer, writable: self.writable }
    }
}

/// Mathematical image of an invocation context.
#[verifier::ext_equal]
pub struct ContextModel {
    pub program: Seq<u8>,
    pub accounts: Seq<MetaModel>,
}

impl ContextModel {
    /// The context carries an account with this address.
    pub open spec fn has(self, a: Seq<u8>) -> bool {
        exists|i: int| 0 <= i < self.accounts.len() && self.accounts[i].address == a
    }

    /// Some entry for this address carries the signer flag.
    pub open spec fn is_signer(self, a: Seq<u8>) -> bool {
        exists|i: int|
            0 <= i < self.accounts.len() && self.accounts[i].address == a
                && self.accounts[i].signer
    }

    /// Some entry for this address carries the writable flag.
    pub open spec fn is_writable(self, a: Seq<u8>) -> bool {
        exists|i: int|
            0 <= i < self.accounts.len() && self.accounts[i].address == a
                && self.accounts[i].writable
    }
}

/// The accounts handed to one invocation of a program, with the signer and
/// writable flags the caller granted.
pub struct InvocationContext {
    pub program: Address,
    pub accounts: Vec<ContextAccount>,
}

impl View for InvocationContext {
    type V = ContextModel;

    open spec fn view(&self) -> ContextModel {
        ContextModel {
            program: self.program@,
            accounts: Seq::new(self.accounts@.len(), |i: int| self.accounts@[i]@),
        }
    }
}

impl InvocationContext {
    /// A context for `program` with no accounts yet.
    pub fn new(program: Address) -> (r: InvocationContext)
        ensures
            r@.program == program@,
            r@.accounts.len() == 0,
    {
        let r = InvocationContext { program, accounts: Vec::new() };
        proof {
            assert(r@.accounts =~= Seq::<MetaModel>::empty());
        }
        r
    }

    /// Adds one account with the given flags.
    pub fn push_account(&mut self, address: Address, signer: bool, writable: bool)
        ensures
            final(self)@.program == old(self)@.program,
            final(self)@.accounts == old(self)@.accounts.push(
                MetaModel { address: address@, signer, writable },
            ),
    {
        self.accounts.push(ContextAccount { address, signer, writable });
        proof {
            assert(final(self)@.accounts =~= old(self)@.accounts.push(
                MetaModel { address: address@, signer, writable },
            ));
        }
    }

    /// Whether the context carries an account with this address.
    pub fn has_account(&self, a: &Address) -> (r: bool)
        ensures
            r == self@.has(a@),
    {
        let n = self.accounts.len();
        for i in 0..n
            invariant
                n == self.accounts@.len(),
                forall|j: int| 0 <= j < i ==> self.accounts@[j]@.address != a@,
        {
            if self.accounts[i].address.equals(a) {
                proof {
                    assert(self@.accounts[i as int] == self.accounts@[i as int]@);
                }
                return true;
            }
        }
        false
    }

    /// Whether this address signed the invocation.
    pub fn signer(&self, a: &Address) -> (r: bool)
        ensures
            r == self@.is_signer(a@),
    {
        let n = self.accounts.len();
        for i in 0..n
            invariant
                n == self.accounts@.len(),
                forall|j: int|
                    0 <= j < i ==> !(self.accounts@[j]@.address == a@ && self.accounts@[j]@.signer),
        {
            if self.accounts[i].address.equals(a) && self.accounts[i].signer {
                proof {
                    assert(self@.accounts[i as int] == self.accounts@[i as int]@);
                }
                return true;
            }
        }
        false
    }

    /// Whether this address is writable in the invocation.
    pub fn writable(&self, a: &Address) -> (r: bool)
        ensures
            r == self@.is_writable(a@),
    {
        let n = self.accounts.len();
        for i in 0..n
            invariant
                n == self.accounts@.len(),
                forall|j: int|
                    0 <= j < i ==> !(self.accounts@[j]@.address == a@
                        && self.accounts@[j]@.writable),
        {
            if self.accounts[i].address.equals(a) && self.accounts[i].writable {
                proof {
                    assert(self@.accounts[i as int] == self.accounts@[i as int]@);
                }
                return true;
            }
        }
        false
    }

    /// Builds the context of a nested invocation of `callee`, forwarding the
    /// listed accounts.  Each forwarded account keeps exactly the signer and
    /// writable privileges it holds here; the call fails if some listed
    /// account was never handed to this invocation.
    pub fn nested(&self, callee: &Address, wanted: &Vec<Address>) -> (r: Option<InvocationContext>)
        ensures
            match r {
                Some(c) => {
                    &&& c@.program == callee@
                    &&& c@.accounts.len() == wanted@.len()
                    &&& forall|i: int|
                        0 <= i < wanted@.len() ==> c@.accounts[i] == (MetaModel {
                            address: wanted@[i]@,
                            signer: self@.is_signer(wanted@[i]@),
                            writable: self@.is_writable(wanted@[i]@),
                        })
                    &&& forall|i: int| 0 <= i < wanted@.len() ==> self@.has(wanted@[i]@)
                },
                None => exists|i: int| 0 <= i < wanted@.len() && !self@.has(wanted@[i]@),
            },
    {
        let mut accounts: Vec<ContextAccount> = Vec::new();
        let n = wanted.len();
        for i in 0..n
            invariant
                n == wanted@.len(),
                accounts@.len() == i,
                forall|j: int|
                    0 <= j < i ==> accounts@[j]@ == (MetaModel {
                        address: wanted@[j]@,
                        signer: self@.is_signer(wanted@[j]@),
                        writable: self@.is_writable(wanted@[j]@),
                    }),
                forall|j: int| 0 <= j < i ==> self@.has(wanted@[j]@),
        {
            if !self.has_account(&wanted[i]) {
                return None;
            }
            let signer = self.signer(&wanted[i]);
            let writable = self.writable(&wanted[i]);
            accounts.push(ContextAccount { address: wanted[i].dup(), signer, writable });
        }
        let c = InvocationContext { program: callee.dup(), accounts };
        Some(c)
    }
}

/// Privilege extension: in a nested invocation built by `nested`, every
/// forwarded account keeps the signer and writable flags it had in the outer
/// invocation.  Applied hop by hop, the outermost caller's grants persist
/// through any chain of nested invocations.
pub proof fn lemma_privilege_extension(
    outer: ContextModel,
    child: ContextModel,
    wanted: Seq<Seq<u8>>,
    a: Seq<u8>,
)
    requires
        child.accounts.len() == wanted.len(),
        forall|j: int|
            0 <= j < wanted.len() ==> child.accounts[j] == (MetaModel {
                address: wanted[j],
                signer: outer.is_signer(wanted[j]),
                writable: outer.is_writable(wanted[j]),
            }),
        exists|i: int| 0 <= i < wanted.len() && wanted[i] == a,
    ensures
        child.is_signer(a) == outer.is_signer(a),
        child.is_writable(a) == outer.is_writable(a),
{
    let i = choose|i: int| 0 <= i < wanted.len() && wanted[i] == a;
    if outer.is_signer(a) {
        assert(child.accounts[i].address == a && child.accounts[i].signer);
    }
    if outer.is_writable(a) {
        assert(child.accounts[i].address == a && child.accounts[i].writable);
    }
    if child.is_signer(a) {
        let j = choose|j: int|
            0 <= j < child.accounts.len() && child.accounts[j].address == a
                && child.accounts[j].signer;
        assert(wanted[j] == a);
    }
    if child.is_writable(a) {
        let j = choose|j: int|
            0 <= j < child.accounts.len() && child.accounts[j].address == a
                && child.accounts[j].writable;
        assert(wanted[j] == a);
    }
}

} // verus!
