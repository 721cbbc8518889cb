use vstd::prelude::*;
use vstd::string::*;

use crate::info::{ClientInfo, IdentityView};

verus! {

/// The views of a list of identities.
pub open spec fn identities(v: Seq<ClientInfo>) -> Seq<IdentityView> {
    v.map_values(|c: ClientInfo| c@)
}

/// No two entries share an `imei`.
pub open spec fn unique_imeis(s: Seq<IdentityView>) -> bool {
    forall|i: int, j: int|
        0 <= i < s.len() && 0 <= j < s.len() && #[trigger] s[i].imei == #[trigger] s[j].imei
            ==> i == j
}

/// Some entry has the identifier `imei`.
pub open spec fn lists(s: Seq<IdentityView>, imei: Seq<char>) -> bool {
    exists|i: int| 0 <= i < s.len() && #[trigger] s[i].imei == imei
}

/// The devices that are registered and connected, at most one entry for
/// each `imei`, in the order they registered.
#[derive(Debug)]
pub struct OnlineRegistry {
    clients: Vec<ClientInfo>,
}

impl View for OnlineRegistry {
    type V = Seq<IdentityView>;

    closed spec fn view(&self) -> Seq<IdentityView> {
        identities(self.clients@)
    }
}

impl OnlineRegistry {
    /// The registry's invariant: one entry per identifier.
    pub open spec fn wf(&self) -> bool {
        unique_imeis(self@)
    }

    /// An empty registry.
    pub fn new() -> (r: OnlineRegistry)
        ensures
            r@ == Seq::<IdentityView>::empty(),
            r.wf(),
    {
        let r = OnlineRegistry { clients: Vec::new() };
        assert(identities(r.clients@) =~= Seq::<IdentityView>::empty());
        r
    }

    /// The number of devices online.
    pub fn len(&self) -> (r: usize)
        ensures
            r == self@.len(),
    {
        self.clients.len()
    }

    /// The position of the entry for `imei`, if there is one.
    fn position(&self, imei: &String) -> (r: Option<usize>)
        ensures
            r matches Some(k) ==> k < self@.len() && self@[k as int].imei == imei@,
            r is None ==> !lists(self@, imei@),
    {
        let mut i: usize = 0;
        while i < self.clients.len()
            invariant
                0 <= i <= self.clients@.len(),
                self@ == identities(self.clients@),
                forall|k: int| 0 <= k < i ==> self@[k].imei != imei@,
            decreases self.clients@.len() - i,
        {
            if self.clients[i].imei == *imei {
                return Some(i);
            }
            i = i + 1;
        }
        None
    }

    /// Whether a device with identifier `imei` is online.
    pub fn contains(&self, imei: &str) -> (r: bool)
        ensures
            r == lists(self@, imei@),
    {
        let key = String::from_str(imei);
        self.position(&key).is_some()
    }

    /// A copy of the entry for `imei`, if that device is online.
    pub fn find(&self, imei: &str) -> (r: Option<ClientInfo>)
        ensures
            r is None <==> !lists(self@, imei@),
            r matches Some(c) ==> lists(self@, imei@) && c@.imei == imei@ && self@.contains(c@),
    {
        let key = String::from_str(imei);
        match self.position(&key) {
            Some(k) => {
                let c = self.clients[k].snapshot();
                assert(self@[k as int] == c@);
                Some(c)
            },
            None => None,
        }
    }

    /// A snapshot of the registry: a copy of every entry, in order.
    pub fn list(&self) -> (r: Vec<ClientInfo>)
        requires
            self.wf(),
        ensures
            identities(r@) == self@,
            unique_imeis(identities(r@)),
    {
        let mut out: Vec<ClientInfo> = Vec::new();
        let mut i: usize = 0;
        while i < self.clients.len()
            invariant
                0 <= i <= self.clients@.len(),
                out@.len() == i,
                self@ == identities(self.clients@),
                identities(out@) == self@.subrange(0, i as int),
            decreases self.clients@.len() - i,
        {
            let c = self.clients[i].snapshot();
            let ghost before = out@;
            out.push(c);
            assert forall|k: int| 0 <= k < i implies identities(out@)[k] == identities(before)[k] by {
                assert(out@[k] == before[k]);
            }
            assert(identities(out@) =~= self@.subrange(0, i + 1));
            i = i + 1;
        }
        assert(self@.subrange(0, i as int) =~= self@);
        out
    }

    /// Adds `info` unless a device with the same `imei` is already online;
    /// returns whether it was added.
    pub fn insert(&mut self, info: ClientInfo) -> (r: bool)
        requires
            old(self).wf(),
        ensures
            r == !lists(old(self)@, info@.imei),
            r ==> final(self)@ == old(self)@.push(info@),
            !r ==> final(self)@ == old(self)@,
            final(self).wf(),
    {
        match self.position(&info.imei) {
            Some(k) => {
                assert(lists(self@, info@.imei));
                false
            },
            None => {
                let ghost before = self.clients@;
                self.clients.push(info);
                proof {
                    assert forall|k: int| 0 <= k < before.len() implies identities(
                        self.clients@,
                    )[k] == identities(before)[k] by {
                        assert(self.clients@[k] == before[k]);
                    }
                    assert(identities(self.clients@) =~= identities(before).push(info@));
                    let s = identities(self.clients@);
                    assert forall|i: int, j: int|
                        0 <= i < s.len() && 0 <= j < s.len() && #[trigger] s[i].imei
                            == #[trigger] s[j].imei implies i == j by {
                        if i == before.len() && j < before.len() {
                            assert(identities(before)[j].imei == info@.imei);
                        } else if j == before.len() && i < before.len() {
                            assert(identities(before)[i].imei == info@.imei);
                        }
                    }
                }
                true
            },
        }
    }

    /// Removes the entry for `imei`, if there is one; returns whether one
    /// was removed. The other entries keep their order.
    pub fn remove(&mut self, imei: &str) -> (r: bool)
        requires
            old(self).wf(),
        ensures
            r == lists(old(self)@, imei@),
            r ==> exists|k: int|
                0 <= k < old(self)@.len() && old(self)@[k].imei == imei@ && final(self)@ == old(
                    self,
                )@.remove(k),
            !r ==> final(self)@ == old(self)@,
            !lists(final(self)@, imei@),
            final(self).wf(),
    {
        let key = String::from_str(imei);
        match self.position(&key) {
            Some(k) => {
                let ghost before = self.clients@;
                let _gone = self.clients.remove(k);
                proof {
                    let s0 = identities(before);
                    let s = identities(self.clients@);
                    assert(s =~= s0.remove(k as int)) by {
                        assert forall|i: int| 0 <= i < s.len() implies s[i] == s0.remove(
                            k as int,
                        )[i] by {
                            if i < k {
                                assert(self.clients@[i] == before[i]);
                            } else {
                                assert(self.clients@[i] == before[i + 1]);
                            }
                        }
                    }
                    assert forall|i: int, j: int|
                        0 <= i < s.len() && 0 <= j < s.len() && #[trigger] s[i].imei
                            == #[trigger] s[j].imei implies i == j by {
                        let i0: int = if i < k { i } else { i + 1 };
                        let j0: int = if j < k { j } else { j + 1 };
                        assert(s[i] == s0[i0]);
                        assert(s[j] == s0[j0]);
                    }
                    if lists(s, imei@) {
                        let i: int = choose|i: int| 0 <= i < s.len() && #[trigger] s[i].imei == imei@;
                        let i0: int = if i < k { i } else { i + 1 };
                        assert(s[i] == s0[i0]);
                        assert(s0[k as int].imei == imei@);
                    }
                }
                true
            },
            None => false,
        }
    }
}

/// At most one registry entry carries any one identifier.
pub proof fn lemma_one_entry_per_imei(s: Seq<IdentityView>, imei: Seq<char>, i: int, j: int)
    requires
        unique_imeis(s),
        0 <= i < s.len(),
        0 <= j < s.len(),
        s[i].imei == imei,
        s[j].imei == imei,
    ensures
        i == j,
{
}

} // verus!
