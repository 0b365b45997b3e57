use vstd::prelude::*;

verus! {

/// Number of distinct server slots a selection can hold.
pub const SLOTS: u8 = 64;

/// A game server as the server list describes it.
pub struct KnownServer {
    /// Short code such as `ams1` or `gmec2`.
    pub token: String,
    /// Display name, e.g. `Netherlands`.
    pub title: String,
    /// Address that is pinged to measure latency.
    pub ping: String,
    /// Address ranges (comma separated CIDR blocks) that the firewall blocks.
    pub block: String,
    /// Slot of this server in a [`ServerSelection`].
    pub bit: u8,
}

impl KnownServer {
    /// A server whose slot fits in a selection.
    pub open spec fn wf(&self) -> bool {
        self.bit < SLOTS
    }
}

impl Clone for KnownServer {
    fn clone(&self) -> (res: Self)
        ensures
            res == *self,
    {
        KnownServer {
            token: self.token.clone(),
            title: self.title.clone(),
            ping: self.ping.clone(),
            block: self.block.clone(),
            bit: self.bit,
        }
    }
}

/// Every server in the list fits in a selection.
pub open spec fn all_wf(servers: Seq<KnownServer>) -> bool {
    forall|i: int| 0 <= i < servers.len() ==> (#[trigger] servers[i]).wf()
}

/// Whether bit `b` of `x` is set.
pub open spec fn bit_at(x: u64, b: u8) -> bool {
    (x >> (b as u64)) & 1 == 1
}

/// All slots.
pub open spec fn all_slots() -> Set<u8> {
    Set::new(|b: u8| b < SLOTS)
}

/// A set with `b` added if absent, removed if present.
pub open spec fn toggled(v: Set<u8>, b: u8) -> Set<u8> {
    if v.contains(b) {
        v.remove(b)
    } else {
        v.insert(b)
    }
}

/// A set of server slots: the servers that are (to be) blocked.
#[derive(Clone, Copy, PartialEq, Eq, Structural, Debug)]
pub struct ServerSelection {
    bits: u64,
}

impl View for ServerSelection {
    type V = Set<u8>;

    closed spec fn view(&self) -> Set<u8> {
        Set::new(|b: u8| b < SLOTS && bit_at(self.bits, b))
    }
}

proof fn lemma_zero_bit(b: u64)
    requires
        b < 64,
    ensures
        (0u64 >> b) & 1 != 1,
{
    assert((0u64 >> b) & 1 != 1) by (bit_vector)
        requires
            b < 64,
    ;
}

proof fn lemma_or_bit(x: u64, b: u64, c: u64)
    requires
        b < 64,
        c < 64,
    ensures
        ((x | (1u64 << b)) >> c) & 1 == 1 <==> (c == b || (x >> c) & 1 == 1),
{
    assert(((x | (1u64 << b)) >> c) & 1 == 1 <==> (c == b || (x >> c) & 1 == 1)) by (bit_vector)
        requires
            b < 64,
            c < 64,
    ;
}

proof fn lemma_xor_bit(x: u64, b: u64, c: u64)
    requires
        b < 64,
        c < 64,
    ensures
        ((x ^ (1u64 << b)) >> c) & 1 == 1 <==> (if c == b {
            (x >> c) & 1 != 1
        } else {
            (x >> c) & 1 == 1
        }),
{
    assert(((x ^ (1u64 << b)) >> c) & 1 == 1 <==> (if c == b {
        (x >> c) & 1 != 1
    } else {
        (x >> c) & 1 == 1
    })) by (bit_vector)
        requires
            b < 64,
            c < 64,
    ;
}

proof fn lemma_single_bit(b: u64, c: u64)
    requires
        b < 64,
        c < 64,
    ensures
        ((1u64 << b) >> c) & 1 == 1 <==> c == b,
        (!(1u64 << b) >> c) & 1 == 1 <==> c != b,
{
    assert(((1u64 << b) >> c) & 1 == 1 <==> c == b) by (bit_vector)
        requires
            b < 64,
            c < 64,
    ;
    assert((!(1u64 << b) >> c) & 1 == 1 <==> c != b) by (bit_vector)
        requires
            b < 64,
            c < 64,
    ;
}

proof fn lemma_bit_is_01(x: u64, c: u64)
    ensures
        (x >> c) & 1 == 0 || (x >> c) & 1 == 1,
{
    assert((x >> c) & 1 == 0 || (x >> c) & 1 == 1) by (bit_vector);
}

proof fn lemma_shift_zero(x: u64)
    ensures
        x >> 0u64 == x,
{
    assert(x >> 0u64 == x) by (bit_vector);
}

proof fn lemma_bits_agree_from(x: u64, y: u64, k: u64)
    requires
        k <= 64,
        forall|c: u64| c < 64 ==> #[trigger] ((x >> c) & 1) == (y >> c) & 1,
    ensures
        x >> k == y >> k,
    decreases 64 - k,
{
    if k == 64 {
        assert(x >> 64u64 == 0 && y >> 64u64 == 0) by (bit_vector);
    } else {
        lemma_bits_agree_from(x, y, (k + 1) as u64);
        let hi = (k + 1) as u64;
        assert((x >> k) & 1 == (y >> k) & 1);
        assert(x >> k == y >> k) by (bit_vector)
            requires
                k < 64,
                hi == k + 1,
                x >> hi == y >> hi,
                (x >> k) & 1 == (y >> k) & 1,
        ;
    }
}

impl ServerSelection {
    /// The slots of this selection, as a raw mask.
    pub closed spec fn mask(&self) -> u64 {
        self.bits
    }

    /// The view is exactly the set bits of the mask.
    pub proof fn lemma_view_is_mask(&self, b: u8)
        ensures
            self@.contains(b) <==> (b < SLOTS && bit_at(self.mask(), b)),
    {
    }

    /// Two selections with the same view have the same mask.
    pub proof fn lemma_view_injective(a: ServerSelection, b: ServerSelection)
        requires
            a@ == b@,
        ensures
            a.mask() == b.mask(),
            a == b,
    {
        assert forall|c: u64| c < 64 implies #[trigger] ((a.bits >> c) & 1) == (b.bits >> c) & 1 by {
            let cb = c as u8;
            assert(a@.contains(cb) == b@.contains(cb));
            assert(cb as u64 == c);
            assert(a@.contains(cb) == bit_at(a.bits, cb));
            assert(b@.contains(cb) == bit_at(b.bits, cb));
            assert(bit_at(a.bits, cb) == ((a.bits >> c) & 1 == 1));
            lemma_bit_is_01(a.bits, c);
            lemma_bit_is_01(b.bits, c);
        }
        lemma_bits_agree_from(a.bits, b.bits, 0);
        lemma_shift_zero(a.bits);
        lemma_shift_zero(b.bits);
    }

    /// The empty selection: nothing blocked.
    pub fn none() -> (s: Self)
        ensures
            s@ == Set::<u8>::empty(),
    {
        let s = ServerSelection { bits: 0 };
        proof {
            assert forall|b: u8| !s@.contains(b) by {
                if b < SLOTS {
                    lemma_zero_bit(b as u64);
                }
            }
            assert(s@ =~= Set::<u8>::empty());
        }
        s
    }

    /// The selection stored as `bits` (see [`ServerSelection::bits`]).
    pub fn from_bits(bits: u64) -> (s: Self)
        ensures
            s.mask() == bits,
            forall|b: u8| s@.contains(b) <==> (b < SLOTS && bit_at(bits, b)),
    {
        ServerSelection { bits }
    }

    /// The raw mask, as stored.
    pub fn bits(&self) -> (r: u64)
        ensures
            r == self.mask(),
    {
        self.bits
    }

    /// Whether the two selections hold the same servers.
    pub fn same_as(&self, other: &ServerSelection) -> (r: bool)
        ensures
            r == (self@ == other@),
    {
        proof {
            if self@ == other@ {
                Self::lemma_view_injective(*self, *other);
            }
        }
        self.bits == other.bits
    }

    /// Whether `server` is in the selection.
    pub fn has(&self, server: &KnownServer) -> (r: bool)
        requires
            server.wf(),
        ensures
            r == self@.contains(server.bit),
    {
        (self.bits >> server.bit) & 1 == 1
    }

    /// Adds `server`.
    pub fn set(&mut self, server: &KnownServer)
        requires
            server.wf(),
        ensures
            final(self)@ == old(self)@.insert(server.bit),
    {
        let ghost x = self.bits;
        self.bits = self.bits | (1u64 << server.bit);
        proof {
            assert forall|c: u8| self@.contains(c) <==> old(self)@.insert(server.bit).contains(c) by {
                if c < SLOTS {
                    lemma_or_bit(x, server.bit as u64, c as u64);
                }
            }
            assert(self@ =~= old(self)@.insert(server.bit));
        }
    }

    /// Adds `server` if absent, removes it if present.
    pub fn toggle(&mut self, server: &KnownServer)
        requires
            server.wf(),
        ensures
            final(self)@ == toggled(old(self)@, server.bit),
    {
        let ghost x = self.bits;
        self.bits = self.bits ^ (1u64 << server.bit);
        proof {
            let want = if old(self)@.contains(server.bit) {
                old(self)@.remove(server.bit)
            } else {
                old(self)@.insert(server.bit)
            };
            assert forall|c: u8| self@.contains(c) <==> want.contains(c) by {
                if c < SLOTS {
                    lemma_xor_bit(x, server.bit as u64, c as u64);
                    lemma_xor_bit(x, server.bit as u64, server.bit as u64);
                }
            }
            assert(self@ =~= want);
        }
    }

    /// Only `server`.
    pub fn solo(&mut self, server: &KnownServer)
        requires
            server.wf(),
        ensures
            final(self)@ == Set::<u8>::empty().insert(server.bit),
    {
        self.bits = 1u64 << server.bit;
        proof {
            assert forall|c: u8| self@.contains(c) <==> c == server.bit by {
                if c < SLOTS {
                    lemma_single_bit(server.bit as u64, c as u64);
                }
            }
            assert(self@ =~= Set::<u8>::empty().insert(server.bit));
        }
    }

    /// Every slot except `server`.
    pub fn solo_invert(&mut self, server: &KnownServer)
        requires
            server.wf(),
        ensures
            final(self)@ == all_slots().remove(server.bit),
    {
        self.bits = !(1u64 << server.bit);
        proof {
            assert forall|c: u8| self@.contains(c) <==> all_slots().remove(server.bit).contains(c) by {
                if c < SLOTS {
                    lemma_single_bit(server.bit as u64, c as u64);
                }
            }
            assert(self@ =~= all_slots().remove(server.bit));
        }
    }
}

} // verus!
