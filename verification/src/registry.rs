//! Discover and look up DevKit plugins.
//!
//! Built-in plugins are listed in `plugins::all()` and registered here. The
//! registry keeps one plugin per id, in id order.
use crate::error::Error;
use crate::plugin::Plugin;
use crate::text::{chars_of, eq, lemma_lt_asym, lemma_lt_irrefl, lemma_lt_total, lemma_lt_trans,
    lt_exec, owned, seq_lt};
use vstd::prelude::*;

verus! {

/// The ids of a sequence of plugins.
pub open spec fn ids_of(ps: Seq<PluginEntry>) -> Seq<Seq<char>> {
    ps.map_values(|p: PluginEntry| p.id@)
}

/// The entry is filed under its plugin's own id.
pub open spec fn entry_ok(e: PluginEntry) -> bool {
    e.plugin.spec_id() == e.id@
}

/// Strictly increasing, hence free of repeats.
pub open spec fn strictly_sorted(s: Seq<Seq<char>>) -> bool {
    forall|i: int, j: int| 0 <= i < j < s.len() ==> seq_lt(#[trigger] s[i], #[trigger] s[j])
}

/// One registered plugin, with the id it reported when it was wrapped.
pub struct PluginEntry {
    pub id: &'static str,
    pub plugin: Box<dyn Plugin>,
}

impl PluginEntry {
    /// Wrap a plugin for the registry: the entry holding `plugin`, filed
    /// under the id `plugin` reports.
    pub fn new(plugin: Box<dyn Plugin>) -> (r: Self)
        ensures
            r.id@ == plugin.spec_id(),
            r == (PluginEntry { id: r.id, plugin }),
    {
        let id = plugin.id();
        PluginEntry { id, plugin }
    }
}

/// Inserting `k` where everything before is smaller and everything after
/// is larger keeps a sequence strictly sorted.
proof fn lemma_insert_sorted(s: Seq<Seq<char>>, pos: int, k: Seq<char>)
    requires
        0 <= pos <= s.len(),
        strictly_sorted(s),
        forall|i: int| 0 <= i < pos ==> seq_lt(#[trigger] s[i], k),
        pos < s.len() ==> seq_lt(k, s[pos]),
    ensures
        strictly_sorted(s.insert(pos, k)),
{
    let t = s.insert(pos, k);
    assert forall|i: int, j: int| 0 <= i < j < t.len() implies seq_lt(#[trigger] t[i], #[trigger] t[j]) by {
        if j < pos {
            assert(t[i] == s[i] && t[j] == s[j]);
        } else if j == pos {
            assert(t[i] == s[i] && t[j] == k);
        } else if i < pos {
            assert(t[i] == s[i] && t[j] == s[j - 1]);
            lemma_lt_trans(s[i], k, s[pos]);
            if j - 1 > pos {
                lemma_lt_trans(s[i], s[pos], s[j - 1]);
            }
        } else if i == pos {
            assert(t[i] == k && t[j] == s[j - 1]);
            if j - 1 > pos {
                lemma_lt_trans(k, s[pos], s[j - 1]);
            }
        } else {
            assert(t[i] == s[i - 1] && t[j] == s[j - 1]);
        }
    }
}

/// A sequence whose neighbours are in increasing order is strictly sorted.
pub proof fn lemma_sorted_by_steps(s: Seq<Seq<char>>)
    requires
        forall|i: int| 0 <= i < s.len() - 1 ==> seq_lt(#[trigger] s[i], s[i + 1]),
    ensures
        strictly_sorted(s),
    decreases s.len(),
{
    if s.len() > 1 {
        let d = s.drop_last();
        assert forall|i: int| 0 <= i < d.len() - 1 implies seq_lt(#[trigger] d[i], d[i + 1]) by {
            assert(d[i] == s[i] && d[i + 1] == s[i + 1]);
        }
        lemma_sorted_by_steps(d);
        assert forall|i: int, j: int| 0 <= i < j < s.len() implies seq_lt(#[trigger] s[i], #[trigger] s[j]) by {
            if j < s.len() - 1 {
                assert(d[i] == s[i] && d[j] == s[j]);
            } else {
                assert(seq_lt(s[j - 1], s[j]));
                if i < j - 1 {
                    assert(d[i] == s[i] && d[j - 1] == s[j - 1]);
                    assert(seq_lt(d[i], d[j - 1]));
                    lemma_lt_trans(s[i], s[j - 1], s[j]);
                }
            }
        }
    }
}

/// Two strictly sorted sequences with the same members are equal.
pub proof fn lemma_sorted_same_members(a: Seq<Seq<char>>, b: Seq<Seq<char>>)
    requires
        strictly_sorted(a),
        strictly_sorted(b),
        forall|x: Seq<char>| a.contains(x) <==> b.contains(x),
    ensures
        a == b,
    decreases a.len() + b.len(),
{
    if a.len() == 0 {
        if b.len() > 0 {
            assert(b.contains(b[0]));
        }
        assert(a =~= b);
    } else if b.len() == 0 {
        assert(a.contains(a[0]));
    } else {
        let x = a.last();
        let y = b.last();
        assert(a.contains(x) && b.contains(y));
        let i = choose|i: int| 0 <= i < b.len() && b[i] == x;
        let j = choose|j: int| 0 <= j < a.len() && a[j] == y;
        assert(x == y) by {
            if x != y {
                if i < b.len() - 1 {
                    assert(seq_lt(b[i], b[b.len() - 1]));
                }
                if j < a.len() - 1 {
                    assert(seq_lt(a[j], a[a.len() - 1]));
                }
                lemma_lt_asym(x, y);
            }
        }
        let ad = a.drop_last();
        let bd = b.drop_last();
        assert forall|i1: int, j1: int| 0 <= i1 < j1 < ad.len() implies seq_lt(#[trigger] ad[i1], #[trigger] ad[j1]) by {
            assert(ad[i1] == a[i1] && ad[j1] == a[j1]);
        }
        assert forall|i1: int, j1: int| 0 <= i1 < j1 < bd.len() implies seq_lt(#[trigger] bd[i1], #[trigger] bd[j1]) by {
            assert(bd[i1] == b[i1] && bd[j1] == b[j1]);
        }
        assert forall|z: Seq<char>| ad.contains(z) <==> bd.contains(z) by {
            if ad.contains(z) {
                let k = choose|k: int| 0 <= k < ad.len() && ad[k] == z;
                assert(a[k] == z);
                assert(seq_lt(a[k], a[a.len() - 1]));
                lemma_lt_irrefl(z);
                assert(b.contains(z));
                let m = choose|m: int| 0 <= m < b.len() && b[m] == z;
                assert(m != b.len() - 1);
                assert(bd[m] == z);
            }
            if bd.contains(z) {
                let k = choose|k: int| 0 <= k < bd.len() && bd[k] == z;
                assert(b[k] == z);
                assert(seq_lt(b[k], b[b.len() - 1]));
                lemma_lt_irrefl(z);
                assert(a.contains(z));
                let m = choose|m: int| 0 <= m < a.len() && a[m] == z;
                assert(m != a.len() - 1);
                assert(ad[m] == z);
            }
        }
        lemma_sorted_same_members(ad, bd);
        assert(a =~= ad.push(x));
        assert(b =~= bd.push(y));
    }
}

/// In a strictly sorted sequence of ids (as `ids` returns and the registry
/// keeps) an id occurs at most once.
pub proof fn lemma_sorted_unique(s: Seq<Seq<char>>, i: int, j: int)
    requires
        strictly_sorted(s),
        0 <= i < s.len(),
        0 <= j < s.len(),
        s[i] == s[j],
    ensures
        i == j,
{
    lemma_lt_irrefl(s[i]);
    if i < j {
        assert(seq_lt(s[i], s[j]));
    } else if j < i {
        assert(seq_lt(s[j], s[i]));
    }
}

pub struct PluginRegistry {
    plugins: Vec<PluginEntry>,
}

impl PluginRegistry {
    /// The registered plugins, in id order.
    pub closed spec fn spec_plugins(&self) -> Seq<PluginEntry> {
        self.plugins@
    }

    /// The registered ids, in order.
    pub open spec fn spec_ids(&self) -> Seq<Seq<char>> {
        ids_of(self.spec_plugins())
    }

    /// Every entry is filed under its plugin's own id (as the built-in
    /// entries are).
    pub open spec fn spec_tied(&self) -> bool {
        forall|j: int| 0 <= j < self.spec_plugins().len() ==> entry_ok(#[trigger] self.spec_plugins()[j])
    }

    #[verifier::type_invariant]
    closed spec fn well_formed(&self) -> bool {
        strictly_sorted(ids_of(self.plugins@))
    }

    pub fn new() -> (r: Self)
        ensures
            r.spec_plugins().len() == 0,
    {
        PluginRegistry { plugins: Vec::new() }
    }

    /// Register a plugin instance under the id it reports; a later
    /// registration replaces the plugin with the same id, and every other
    /// registered plugin stays.
    pub fn register(&mut self, plugin: Box<dyn Plugin>)
        ensures
            strictly_sorted(final(self).spec_ids()),
            final(self).spec_ids().contains(plugin.spec_id()),
            forall|x: Seq<char>|
                #[trigger] final(self).spec_ids().contains(x) <==> (x == plugin.spec_id() || old(
                    self,
                ).spec_ids().contains(x)),
            forall|i: int|
                0 <= i < old(self).spec_plugins().len() && old(self).spec_ids()[i] != plugin.spec_id()
                    ==> final(self).spec_plugins().contains(#[trigger] old(self).spec_plugins()[i]),
            forall|j: int|
                0 <= j < final(self).spec_plugins().len() && #[trigger] final(self).spec_ids()[j]
                    == plugin.spec_id() ==> final(self).spec_plugins()[j] == (PluginEntry {
                    id: final(self).spec_plugins()[j].id,
                    plugin,
                }),
    {
        let id = plugin.id();
        let entry = PluginEntry { id, plugin };
        self.insert_entry(entry);
    }

    /// File `entry` under its id, replacing an entry with the same id.
    fn insert_entry(&mut self, entry: PluginEntry)
        ensures
            strictly_sorted(final(self).spec_ids()),
            final(self).spec_ids().contains(entry.id@),
            forall|x: Seq<char>|
                #[trigger] final(self).spec_ids().contains(x) <==> (x == entry.id@ || old(
                    self,
                ).spec_ids().contains(x)),
            forall|i: int|
                0 <= i < old(self).spec_plugins().len() && old(self).spec_ids()[i] != entry.id@
                    ==> final(self).spec_plugins().contains(#[trigger] old(self).spec_plugins()[i]),
            forall|j: int|
                0 <= j < final(self).spec_plugins().len() && #[trigger] final(self).spec_ids()[j] == entry.id@
                    ==> final(self).spec_plugins()[j] == entry,
            forall|j: int|
                0 <= j < final(self).spec_plugins().len() ==> #[trigger] final(self).spec_plugins()[j] == entry
                    || old(self).spec_plugins().contains(final(self).spec_plugins()[j]),
    {
        proof {
            use_type_invariant(&*self);
        }
        let id = chars_of(entry.id);
        let ghost k = entry.id@;
        let ghost old_ps = self.plugins@;
        let ghost old_ids = ids_of(old_ps);
        let mut pos: usize = 0;
        while pos < self.plugins.len() && lt_exec(
            chars_of(self.plugins[pos].id).as_slice(),
            id.as_slice(),
        )
            invariant
                pos <= self.plugins@.len(),
                self.plugins@ == old_ps,
                old_ids == ids_of(old_ps),
                id@ == k,
                forall|i: int| 0 <= i < pos ==> seq_lt(#[trigger] old_ids[i], k),
            decreases self.plugins.len() - pos,
        {
            pos = pos + 1;
        }
        let replace = pos < self.plugins.len() && eq(
            chars_of(self.plugins[pos].id).as_slice(),
            id.as_slice(),
        );
        let mut ps: Vec<PluginEntry> = Vec::new();
        std::mem::swap(&mut ps, &mut self.plugins);
        if replace {
            ps.remove(pos);
            ps.insert(pos, entry);
            proof {
                assert(ps@ =~= old_ps.update(pos as int, ps@[pos as int]));
                assert(ids_of(ps@) =~= old_ids);
                assert forall|x: Seq<char>|
                    #[trigger] ids_of(ps@).contains(x) <==> (x == k || old_ids.contains(x)) by {
                    if x == k {
                        assert(old_ids[pos as int] == k);
                    }
                }
                assert forall|i: int|
                    0 <= i < old_ps.len() && old_ids[i] != k implies ps@.contains(
                    #[trigger] old_ps[i],
                ) by {
                    assert(i != pos);
                    assert(ps@[i] == old_ps[i]);
                }
            }
        } else {
            ps.insert(pos, entry);
            proof {
                if pos < old_ps.len() {
                    assert(!seq_lt(old_ids[pos as int], k));
                    assert(old_ids[pos as int] != k);
                    lemma_lt_total(old_ids[pos as int], k);
                }
                lemma_insert_sorted(old_ids, pos as int, k);
                assert(ids_of(ps@) =~= old_ids.insert(pos as int, k));
                assert forall|x: Seq<char>|
                    #[trigger] ids_of(ps@).contains(x) <==> (x == k || old_ids.contains(x)) by {
                    let t = ids_of(ps@);
                    if x == k {
                        assert(t[pos as int] == k);
                    }
                    if old_ids.contains(x) {
                        let i = choose|i: int| 0 <= i < old_ids.len() && old_ids[i] == x;
                        if i < pos {
                            assert(t[i] == x);
                        } else {
                            assert(t[i + 1] == x);
                        }
                    }
                    if t.contains(x) && x != k {
                        let i = choose|i: int| 0 <= i < t.len() && t[i] == x;
                        if i < pos {
                            assert(old_ids[i] == x);
                        } else {
                            assert(old_ids[i - 1] == x);
                        }
                    }
                }
                assert forall|i: int|
                    0 <= i < old_ps.len() && old_ids[i] != k implies ps@.contains(
                    #[trigger] old_ps[i],
                ) by {
                    if i < pos {
                        assert(ps@[i] == old_ps[i]);
                    } else {
                        assert(ps@[i + 1] == old_ps[i]);
                    }
                }
            }
        }
        self.plugins = ps;
        proof {
            assert(self.plugins@[pos as int] == entry);
            assert(self.spec_ids().contains(k)) by {
                assert(self.spec_ids()[pos as int] == k);
            }
            assert forall|j: int|
                0 <= j < self.spec_plugins().len() && #[trigger] self.spec_ids()[j] == k implies self.spec_plugins()[j]
                == entry by {
                assert(self.spec_ids()[pos as int] == k);
                lemma_sorted_unique(self.spec_ids(), j, pos as int);
            }
        }
    }

    /// The plugin registered under `plugin_id`.
    pub fn get(&self, plugin_id: &str) -> (r: Option<&Box<dyn Plugin>>)
        ensures
            r is Some <==> self.spec_ids().contains(plugin_id@),
            r matches Some(p) ==> exists|j: int|
                0 <= j < self.spec_plugins().len() && self.spec_ids()[j] == plugin_id@
                    && #[trigger] self.spec_plugins()[j].plugin == *p,
            self.spec_tied() ==> (r matches Some(p) ==> p.spec_id() == plugin_id@),
    {
        let id = chars_of(plugin_id);
        let mut i: usize = 0;
        while i < self.plugins.len()
            invariant
                i <= self.plugins@.len(),
                id@ == plugin_id@,
                forall|j: int| 0 <= j < i ==> #[trigger] self.plugins@[j].id@ != plugin_id@,
            decreases self.plugins.len() - i,
        {
            if eq(chars_of(self.plugins[i].id).as_slice(), id.as_slice()) {
                let p = &self.plugins[i].plugin;
                proof {
                    assert(self.spec_ids()[i as int] == plugin_id@);
                    assert(self.plugins@[i as int].plugin == *p);
                }
                return Some(p);
            }
            i = i + 1;
        }
        proof {
            if self.spec_ids().contains(plugin_id@) {
                let j = choose|j: int| 0 <= j < self.spec_ids().len() && self.spec_ids()[j] == plugin_id@;
                assert(self.plugins@[j].id@ == plugin_id@);
            }
        }
        None
    }

    /// The plugin registered under `plugin_id`, or an error that lists the
    /// known ids.
    pub fn require(&self, plugin_id: &str) -> (r: Result<&Box<dyn Plugin>, Error>)
        ensures
            r is Ok <==> self.spec_ids().contains(plugin_id@),
            r matches Ok(p) ==> exists|j: int|
                0 <= j < self.spec_plugins().len() && self.spec_ids()[j] == plugin_id@
                    && #[trigger] self.spec_plugins()[j].plugin == *p,
            self.spec_tied() ==> (r matches Ok(p) ==> p.spec_id() == plugin_id@),
            r matches Err(e) ==> e matches Error::UnknownPlugin { id, known } && id@ == plugin_id@
                && known@.map_values(|s: String| s@) == self.spec_ids(),
    {
        match self.get(plugin_id) {
            Some(p) => Ok(p),
            None => {
                let ids = self.ids();
                let mut known: Vec<String> = Vec::new();
                let mut i: usize = 0;
                while i < ids.len()
                    invariant
                        i <= ids@.len(),
                        known@.map_values(|s: String| s@) == ids@.map_values(|s: &str| s@).take(
                            i as int,
                        ),
                    decreases ids.len() - i,
                {
                    let ghost before = known@.map_values(|s: String| s@);
                    known.push(owned(ids[i]));
                    assert(known@.map_values(|s: String| s@) =~= before.push(ids@[i as int]@));
                    assert(ids@.map_values(|s: &str| s@).take(i + 1) =~= ids@.map_values(
                        |s: &str| s@,
                    ).take(i as int).push(ids@[i as int]@));
                    i = i + 1;
                }
                assert(ids@.map_values(|s: &str| s@).take(i as int) =~= ids@.map_values(
                    |s: &str| s@,
                ));
                Err(Error::UnknownPlugin { id: owned(plugin_id), known })
            },
        }
    }

    /// Return plugins sorted by id.
    pub fn all(&self) -> (r: Vec<&Box<dyn Plugin>>)
        ensures
            r@.len() == self.spec_plugins().len(),
            forall|i: int| 0 <= i < r@.len() ==> *#[trigger] r@[i] == self.spec_plugins()[i].plugin,
            strictly_sorted(self.spec_ids()),
            self.spec_tied() ==> forall|i: int| 0 <= i < r@.len() ==> (#[trigger] r@[i]).spec_id() == self.spec_ids()[i],
    {
        proof {
            use_type_invariant(self);
        }
        let mut out: Vec<&Box<dyn Plugin>> = Vec::new();
        let mut i: usize = 0;
        while i < self.plugins.len()
            invariant
                i <= self.plugins@.len(),
                out@.len() == i,
                forall|j: int| 0 <= j < i ==> *#[trigger] out@[j] == self.plugins@[j].plugin,
            decreases self.plugins.len() - i,
        {
            out.push(&self.plugins[i].plugin);
            i = i + 1;
        }
        out
    }

    /// Return the plugin ids, sorted and without repeats.
    pub fn ids(&self) -> (r: Vec<&'static str>)
        ensures
            r@.map_values(|s: &str| s@) == self.spec_ids(),
            strictly_sorted(r@.map_values(|s: &str| s@)),
    {
        proof {
            use_type_invariant(self);
        }
        let mut out: Vec<&'static str> = Vec::new();
        let mut i: usize = 0;
        while i < self.plugins.len()
            invariant
                i <= self.plugins@.len(),
                out@.map_values(|s: &str| s@) == ids_of(self.plugins@).take(i as int),
            decreases self.plugins.len() - i,
        {
            let ghost before = out@.map_values(|s: &str| s@);
            out.push(self.plugins[i].id);
            assert(out@.map_values(|s: &str| s@) =~= before.push(self.plugins@[i as int].id@));
            assert(ids_of(self.plugins@).take(i + 1) =~= ids_of(self.plugins@).take(i as int).push(
                self.plugins@[i as int].id@,
            ));
            i = i + 1;
        }
        assert(ids_of(self.plugins@).take(i as int) =~= ids_of(self.plugins@));
        out
    }

    /// Register every built-in plugin.
    pub fn load_builtin(&mut self)
        ensures
            strictly_sorted(final(self).spec_ids()),
            forall|x: Seq<char>|
                #[trigger] final(self).spec_ids().contains(x) <==> (old(self).spec_ids().contains(x)
                    || crate::plugins::builtin_ids().contains(x)),
            old(self).spec_tied() ==> final(self).spec_tied(),
    {
        proof {
            use_type_invariant(&*self);
        }
        let mut all = crate::plugins::all();
        let ghost orig = all@;
        let ghost start = self.spec_ids();
        let ghost tied0 = self.spec_tied();
        let mut i: usize = 0;
        let n = all.len();
        assert(orig.skip(0) =~= orig);
        while all.len() > 0
            invariant
                all@ == orig.skip(i as int),
                i <= orig.len(),
                orig.len() == n,
                ids_of(orig) == crate::plugins::builtin_ids(),
                strictly_sorted(self.spec_ids()),
                forall|x: Seq<char>|
                    #[trigger] self.spec_ids().contains(x) <==> (start.contains(x)
                        || ids_of(orig).take(i as int).contains(x)),
                forall|k: int| 0 <= k < orig.len() ==> entry_ok(#[trigger] orig[k]),
                tied0 ==> self.spec_tied(),
            decreases all.len(),
        {
            let e = all.remove(0);
            proof {
                assert(orig.skip(i as int).remove(0) =~= orig.skip(i + 1));
                assert(e == orig[i as int]);
                assert(ids_of(orig)[i as int] == e.id@);
            }
            let ghost before = self.spec_plugins();
            self.insert_entry(e);
            proof {
                if tied0 {
                    assert forall|j: int| 0 <= j < self.spec_plugins().len() implies entry_ok(
                        #[trigger] self.spec_plugins()[j],
                    ) by {
                        if self.spec_plugins()[j] != e {
                            assert(before.contains(self.spec_plugins()[j]));
                            let m = choose|m: int| 0 <= m < before.len() && before[m] == self.spec_plugins()[j];
                            assert(entry_ok(before[m]));
                        }
                    }
                }
                let t = ids_of(orig).take(i + 1);
                assert(t =~= ids_of(orig).take(i as int).push(e.id@));
                assert forall|x: Seq<char>|
                    #[trigger] self.spec_ids().contains(x) <==> (start.contains(x) || t.contains(x)) by {
                    if t.contains(x) && x != e.id@ {
                        let j = choose|j: int| 0 <= j < t.len() && t[j] == x;
                        assert(ids_of(orig).take(i as int)[j] == x);
                    }
                    if ids_of(orig).take(i as int).contains(x) {
                        let j = choose|j: int| 0 <= j < i && ids_of(orig).take(i as int)[j] == x;
                        assert(t[j] == x);
                    }
                    if x == e.id@ {
                        assert(t[i as int] == x);
                    }
                }
            }
            i = i + 1;
        }
        assert(ids_of(orig).take(i as int) =~= ids_of(orig));
    }
}

/// Build a registry with built-in plugins.
pub fn default_registry() -> (r: PluginRegistry)
    ensures
        strictly_sorted(r.spec_ids()),
        r.spec_tied(),
        r.spec_ids() == crate::plugins::builtin_ids(),
        forall|x: Seq<char>|
            #[trigger] r.spec_ids().contains(x) <==> crate::plugins::builtin_ids().contains(x),
{
    let mut registry = PluginRegistry::new();
    registry.load_builtin();
    proof {
        crate::plugins::lemma_builtin_ids_sorted();
        lemma_sorted_same_members(registry.spec_ids(), crate::plugins::builtin_ids());
    }
    registry
}

} // verus!
