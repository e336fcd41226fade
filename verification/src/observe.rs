//! Log lines and the latch that keeps a repeating failure to one of them.

use vstd::prelude::*;
use vstd::string::{StringExecFns, StringSliceAdditionalSpecFns};
use vstd::utf8::encode_utf8_decode_utf8;
use crate::text::{decimal, fields_view, push_decimal};

verus! {

/// A list of fields as it stands in a line: ` name=value` each.
pub open spec fn fields_text(fields: Seq<(Seq<char>, Seq<char>)>) -> Seq<char>
    decreases fields.len(),
{
    if fields.len() == 0 {
        Seq::empty()
    } else {
        fields_text(fields.drop_last()) + " "@ + fields.last().0 + "="@ + fields.last().1
    }
}

/// The start of a refusal's line: the event and the check that refused.
pub open spec fn refusal_text(event: Seq<char>, reason: Seq<char>) -> Seq<char> {
    event + " reason="@ + reason
}

/// A log line being written.
pub struct Emit {
    pub line: String,
}

impl View for Emit {
    type V = Seq<char>;

    open spec fn view(&self) -> Seq<char> {
        self.line@
    }
}

impl Emit {
    /// Start the line of a refusal.
    pub fn new(event: &str, reason: &str) -> (emit: Emit)
        ensures
            emit@ == refusal_text(event@, reason@),
    {
        let mut line = String::new();
        line.append(event);
        line.append(" reason=");
        line.append(reason);
        assert(line@ =~= refusal_text(event@, reason@));
        Emit { line }
    }

    /// Append one field.
    pub fn text(self, name: &str, value: &str) -> (emit: Emit)
        ensures
            emit@ == self@ + " "@ + name@ + "="@ + value@,
    {
        let mut line = self.line;
        line.append(" ");
        line.append(name);
        line.append("=");
        line.append(value);
        Emit { line }
    }

    /// Append one number.
    pub fn field(self, name: &str, value: u64) -> (emit: Emit)
        ensures
            emit@ == self@ + " "@ + name@ + "="@ + decimal(value as nat),
    {
        let mut line = self.line;
        line.append(" ");
        line.append(name);
        line.append("=");
        push_decimal(&mut line, value);
        Emit { line }
    }

    /// Append a list of fields.
    pub fn fields(self, fields: &Vec<(&'static str, String)>) -> (emit: Emit)
        ensures
            emit@ == self@ + fields_text(fields_view(fields@)),
    {
        let ghost start = self.line@;
        let ghost all = fields_view(fields@);
        let mut line = self.line;
        let mut i: usize = 0;
        assert(all.take(0) =~= Seq::empty());
        assert(line@ =~= start + fields_text(all.take(0)));
        while i < fields.len()
            invariant
                i <= fields.len(),
                all == fields_view(fields@),
                line@ == start + fields_text(all.take(i as int)),
            decreases fields.len() - i,
        {
            line.append(" ");
            line.append(fields[i].0);
            line.append("=");
            line.append(fields[i].1.as_str());
            i = i + 1;
            assert(all.take(i as int).drop_last() =~= all.take(i - 1));
            assert(line@ =~= start + fields_text(all.take(i as int)));
        }
        assert(all.take(i as int) =~= all);
        Emit { line }
    }

    /// The finished line.
    pub fn render(self) -> (line: String)
        ensures
            line@ == self@,
    {
        self.line
    }
}

/// Whether two texts are the same.
pub fn same_text(a: &str, b: &str) -> (same: bool)
    ensures
        same == (a@ == b@),
{
    let x = a.as_bytes();
    let y = b.as_bytes();
    proof {
        encode_utf8_decode_utf8(a@);
        encode_utf8_decode_utf8(b@);
    }
    if x.len() != y.len() {
        return false;
    }
    let mut i: usize = 0;
    while i < x.len()
        invariant
            i <= x.len(),
            x.len() == y.len(),
            x@ == a.spec_bytes(),
            y@ == b.spec_bytes(),
            forall|k: int| 0 <= k < i ==> x@[k] == y@[k],
        decreases x.len() - i,
    {
        if x[i] != y[i] {
            return false;
        }
        i = i + 1;
    }
    assert(x@ =~= y@);
    true
}

/// A guest page that two live surfaces own, found while one of them was resolved.
#[derive(Clone, Copy, Debug, PartialEq, Eq)]
pub struct SurfaceAlias {
    pub mapping_id: u32,
    pub owner: u32,
    /// The page's start.
    pub gpa: u64,
    /// Pages that the mapping lists.
    pub mine_pages: usize,
    /// What the mapping was resolved for.
    pub path: &'static str,
}

impl SurfaceAlias {
    /// What the alias is told apart by.
    pub open spec fn key_spec(self) -> (u32, u32, u64) {
        (self.mapping_id, self.owner, self.gpa)
    }
}

/// The failures that were noted, by what failed and why: each is logged once until
/// what failed works again. What is new waits to be logged.
pub struct FailLatch {
    pub seen: Vec<(u32, &'static str)>,
    pub fresh: Vec<(u32, &'static str)>,
    /// The aliases that were noted, by mapping, owner and page.
    pub aliased: Vec<(u32, u32, u64)>,
    pub fresh_aliases: Vec<SurfaceAlias>,
}

/// A latch as values.
#[verifier::ext_equal]
pub struct LatchView {
    pub seen: Set<(u32, Seq<char>)>,
    pub fresh: Seq<(u32, Seq<char>)>,
    pub aliased: Seq<(u32, u32, u64)>,
    pub fresh_aliases: Seq<SurfaceAlias>,
}

/// A list of failures as values.
pub open spec fn failures(list: Seq<(u32, &'static str)>) -> Seq<(u32, Seq<char>)> {
    Seq::new(list.len(), |i: int| (list[i].0, list[i].1@))
}

impl View for FailLatch {
    type V = LatchView;

    open spec fn view(&self) -> LatchView {
        LatchView {
            seen: Set::new(|key: (u32, Seq<char>)| exists|i: int| latched(self.seen@, i, key)),
            fresh: failures(self.fresh@),
            aliased: self.aliased@,
            fresh_aliases: self.fresh_aliases@,
        }
    }
}

impl LatchView {
    /// The latch with a failure noted: one that is new waits to be logged.
    pub open spec fn noted(self, id: u32, reason: Seq<char>) -> LatchView {
        if self.seen.contains((id, reason)) {
            self
        } else {
            LatchView {
                seen: self.seen.insert((id, reason)),
                fresh: self.fresh.push((id, reason)),
                ..self
            }
        }
    }

    /// The latch once `id` works again: its failures are news when they come back.
    pub open spec fn cleared(self, id: u32) -> LatchView {
        LatchView { seen: self.seen.filter(|key: (u32, Seq<char>)| key.0 != id), ..self }
    }

    /// The latch with an alias noted: one that is new waits to be logged.
    pub open spec fn alias_noted(self, alias: SurfaceAlias) -> LatchView {
        if self.aliased.contains(alias.key_spec()) {
            self
        } else {
            LatchView {
                aliased: self.aliased.push(alias.key_spec()),
                fresh_aliases: self.fresh_aliases.push(alias),
                ..self
            }
        }
    }
}

/// Slot `i` holds the failure.
pub open spec fn latched(
    seen: Seq<(u32, &'static str)>,
    i: int,
    key: (u32, Seq<char>),
) -> bool {
    0 <= i < seen.len() && seen[i].0 == key.0 && seen[i].1@ == key.1
}

impl FailLatch {
    pub fn new() -> (latch: FailLatch)
        ensures
            latch@ == (LatchView {
                seen: Set::empty(),
                fresh: Seq::empty(),
                aliased: Seq::empty(),
                fresh_aliases: Seq::empty(),
            }),
    {
        let latch = FailLatch {
            seen: Vec::new(),
            fresh: Vec::new(),
            aliased: Vec::new(),
            fresh_aliases: Vec::new(),
        };
        assert(latch@.seen =~= Set::<(u32, Seq<char>)>::empty());
        assert(latch@.fresh =~= Seq::<(u32, Seq<char>)>::empty());
        assert(latch@.fresh_aliases =~= Seq::<SurfaceAlias>::empty());
        latch
    }

    /// Whether the failure was logged and has not been cleared.
    pub fn contains(&self, id: u32, reason: &'static str) -> (found: bool)
        ensures
            found == self@.seen.contains((id, reason@)),
    {
        let mut i: usize = 0;
        while i < self.seen.len()
            invariant
                i <= self.seen.len(),
                forall|k: int| 0 <= k < i ==> !latched(self.seen@, k, (id, reason@)),
            decreases self.seen.len() - i,
        {
            if self.seen[i].0 == id && same_text(self.seen[i].1, reason) {
                assert(latched(self.seen@, i as int, (id, reason@)));
                return true;
            }
            i = i + 1;
        }
        false
    }

    /// Note a failure; tells whether it is new, which is when it is logged.
    pub fn note(&mut self, id: u32, reason: &'static str) -> (fresh: bool)
        ensures
            fresh == !old(self)@.seen.contains((id, reason@)),
            final(self)@ == old(self)@.noted(id, reason@),
    {
        if self.contains(id, reason) {
            return false;
        }
        let ghost before = self.seen@;
        self.seen.push((id, reason));
        self.fresh.push((id, reason));
        proof {
            assert(latched(self.seen@, before.len() as int, (id, reason@)));
            assert forall|key: (u32, Seq<char>)| #[trigger] self@.seen.contains(key) <==> old(
                self,
            )@.seen.insert((id, reason@)).contains(key) by {
                if old(self)@.seen.contains(key) {
                    let i = choose|i: int| latched(before, i, key);
                    assert(latched(self.seen@, i, key));
                }
                if self@.seen.contains(key) {
                    let i = choose|i: int| latched(self.seen@, i, key);
                    if i < before.len() {
                        assert(latched(before, i, key));
                    }
                }
            }
            assert(self@.seen =~= old(self)@.seen.insert((id, reason@)));
            assert(self@.fresh =~= old(self)@.fresh.push((id, reason@)));
        }
        true
    }

    /// Hand out the failures that wait to be logged, in the order they came.
    pub fn take_fresh(&mut self) -> (fresh: Vec<(u32, &'static str)>)
        ensures
            failures(fresh@) == old(self)@.fresh,
            final(self)@ == (LatchView { fresh: Seq::empty(), ..old(self)@ }),
    {
        let mut fresh: Vec<(u32, &'static str)> = Vec::new();
        core::mem::swap(&mut fresh, &mut self.fresh);
        assert(self@.fresh =~= Seq::<(u32, Seq<char>)>::empty());
        fresh
    }

    /// Note an alias; tells whether it is new, which is when it is logged.
    pub fn note_surface_page_collision(&mut self, alias: SurfaceAlias) -> (fresh: bool)
        ensures
            fresh == !old(self)@.aliased.contains(alias.key_spec()),
            final(self)@ == old(self)@.alias_noted(alias),
    {
        let mut i: usize = 0;
        while i < self.aliased.len()
            invariant
                *self == *old(self),
                i <= self.aliased.len(),
                forall|k: int| 0 <= k < i ==> self.aliased[k] != alias.key_spec(),
            decreases self.aliased.len() - i,
        {
            let (mapping_id, owner, gpa) = self.aliased[i];
            if mapping_id == alias.mapping_id && owner == alias.owner && gpa == alias.gpa {
                assert(self.aliased@[i as int] == alias.key_spec());
                return false;
            }
            i = i + 1;
        }
        self.aliased.push((alias.mapping_id, alias.owner, alias.gpa));
        self.fresh_aliases.push(alias);
        true
    }

    /// Hand out the aliases that wait to be logged, in the order they came.
    pub fn take_fresh_aliases(&mut self) -> (fresh: Vec<SurfaceAlias>)
        ensures
            fresh@ == old(self)@.fresh_aliases,
            final(self)@ == (LatchView { fresh_aliases: Seq::empty(), ..old(self)@ }),
    {
        let mut fresh: Vec<SurfaceAlias> = Vec::new();
        core::mem::swap(&mut fresh, &mut self.fresh_aliases);
        assert(self@.fresh_aliases =~= Seq::<SurfaceAlias>::empty());
        fresh
    }

    /// Forget every failure of `id`.
    pub fn clear(&mut self, id: u32)
        ensures
            final(self)@ == old(self)@.cleared(id),
    {
        let ghost before = self.seen@;
        let mut kept: Vec<(u32, &'static str)> = Vec::new();
        let mut i: usize = 0;
        while i < self.seen.len()
            invariant
                self.seen@ == before,
                self.fresh == old(self).fresh,
                self.aliased == old(self).aliased,
                self.fresh_aliases == old(self).fresh_aliases,
                i <= self.seen.len(),
                forall|key: (u32, Seq<char>)|
                    (exists|k: int| latched(kept@, k, key)) <==> (key.0 != id && exists|k: int|
                        k < i && #[trigger] latched(before, k, key)),
            decreases self.seen.len() - i,
        {
            let (mid, reason) = self.seen[i];
            let ghost k0 = kept@;
            if mid != id {
                kept.push((mid, reason));
            }
            proof {
                assert forall|key: (u32, Seq<char>)|
                    (exists|k: int| latched(kept@, k, key)) <==> (key.0 != id && exists|k: int|
                        k < i + 1 && #[trigger] latched(before, k, key)) by {
                    if exists|k: int| latched(kept@, k, key) {
                        let k = choose|k: int| latched(kept@, k, key);
                        if k < k0.len() {
                            assert(latched(k0, k, key));
                        } else {
                            assert(latched(before, i as int, key));
                        }
                    }
                    if key.0 != id && exists|k: int|
                        k < i + 1 && #[trigger] latched(before, k, key) {
                        let k = choose|k: int| k < i + 1 && #[trigger] latched(before, k, key);
                        if k < i {
                            let j = choose|j: int| latched(k0, j, key);
                            assert(latched(kept@, j, key));
                        } else {
                            assert(latched(kept@, k0.len() as int, key));
                        }
                    }
                }
            }
            i = i + 1;
        }
        self.seen = kept;
        proof {
            let left = old(self)@.seen.filter(|key: (u32, Seq<char>)| key.0 != id);
            assert forall|key: (u32, Seq<char>)| #[trigger]
                self@.seen.contains(key) <==> left.contains(key) by {
                if old(self)@.seen.contains(key) {
                    let k = choose|k: int| latched(before, k, key);
                    assert(k < before.len());
                }
            }
            assert(self@.seen =~= left);
        }
    }
}

/// A cleared id can be logged again, and the others are as they were.
pub proof fn law_latch_rearms(seen: Set<(u32, Seq<char>)>, id: u32, other: u32, reason: Seq<char>)
    ensures
        ({
            let cleared = seen.filter(|key: (u32, Seq<char>)| key.0 != id);
            &&& !cleared.contains((id, reason))
            &&& other != id ==> cleared.contains((other, reason)) == seen.contains((other, reason))
        }),
{
}

} // verus!
