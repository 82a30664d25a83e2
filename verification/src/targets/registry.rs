//! A registry of target descriptions by id, with their SVD files.
use crate::svd::parser::periph_view;
use crate::target::TargetSpec;
use crate::targets::config::{spec_build, TargetConfig};
use crate::text::{concat3, str_eq};
use vstd::prelude::*;

verus! {

/// `a` sorts before `b`: string order, character by character (a proper prefix first).
pub open spec fn str_lt(a: Seq<char>, b: Seq<char>) -> bool
    decreases a.len(),
{
    if a.len() == 0 {
        b.len() > 0
    } else if b.len() == 0 {
        false
    } else if a[0] != b[0] {
        (a[0] as int) < (b[0] as int)
    } else {
        str_lt(a.drop_first(), b.drop_first())
    }
}

pub proof fn lemma_str_lt_irreflexive(a: Seq<char>)
    ensures
        !str_lt(a, a),
    decreases a.len(),
{
    if a.len() > 0 {
        lemma_str_lt_irreflexive(a.drop_first());
    }
}

pub proof fn lemma_str_lt_transitive(a: Seq<char>, b: Seq<char>, c: Seq<char>)
    requires
        str_lt(a, b),
        str_lt(b, c),
    ensures
        str_lt(a, c),
    decreases a.len(),
{
    if a.len() > 0 && b.len() > 0 && c.len() > 0 && a[0] == b[0] && b[0] == c[0] {
        lemma_str_lt_transitive(a.drop_first(), b.drop_first(), c.drop_first());
    }
}

pub proof fn lemma_str_lt_antisymmetric(a: Seq<char>, b: Seq<char>)
    requires
        str_lt(a, b),
    ensures
        !str_lt(b, a),
{
    if str_lt(b, a) {
        lemma_str_lt_transitive(a, b, a);
        lemma_str_lt_irreflexive(a);
    }
}

pub proof fn lemma_str_lt_total(a: Seq<char>, b: Seq<char>)
    ensures
        a == b || str_lt(a, b) || str_lt(b, a),
    decreases a.len(),
{
    if a.len() > 0 && b.len() > 0 && a[0] == b[0] {
        lemma_str_lt_total(a.drop_first(), b.drop_first());
        if a.drop_first() == b.drop_first() {
            assert(a =~= seq![a[0]] + a.drop_first());
            assert(b =~= seq![b[0]] + b.drop_first());
        }
    } else if a.len() == 0 && b.len() == 0 {
        assert(a =~= b);
    } else if a.len() > 0 && b.len() > 0 {
        assert((a[0] as int) != (b[0] as int));
    }
}

/// Whether `a` sorts before `b`.
pub fn str_less(a: &str, b: &str) -> (r: bool)
    ensures
        r == str_lt(a@, b@),
{
    let n = a.unicode_len();
    let m = b.unicode_len();
    let mut i: usize = 0;
    assert(a@.subrange(0, n as int) =~= a@);
    assert(b@.subrange(0, m as int) =~= b@);
    while i < n && i < m
        invariant
            n == a@.len(),
            m == b@.len(),
            i <= n,
            i <= m,
            str_lt(a@, b@) == str_lt(a@.subrange(i as int, n as int), b@.subrange(i as int, m as int)),
        decreases n - i,
    {
        let ca = a.get_char(i);
        let cb = b.get_char(i);
        let ghost sa = a@.subrange(i as int, n as int);
        let ghost sb = b@.subrange(i as int, m as int);
        assert(sa[0] == ca && sb[0] == cb);
        if ca != cb {
            return (ca as u32) < (cb as u32);
        }
        assert(sa.drop_first() =~= a@.subrange(i + 1, n as int));
        assert(sb.drop_first() =~= b@.subrange(i + 1, m as int));
        i = i + 1;
    }
    i == n && i < m
}

/// The characters of each string of `v`.
pub open spec fn str_views(v: Seq<&str>) -> Seq<Seq<char>> {
    v.map_values(|x: &str| x@)
}

/// The ids in `ids` sorted without repetition: strictly increasing.
pub open spec fn strictly_sorted(ids: Seq<Seq<char>>) -> bool {
    forall|i: int, j: int| 0 <= i < j < ids.len() ==> str_lt(#[trigger] ids[i], #[trigger] ids[j])
}

/// Registry of target descriptions. Configs registered later replace earlier ones with the
/// same id; SVD files are kept by file name, a later one replacing an earlier one.
pub struct TargetRegistry {
    configs: Vec<TargetConfig>,
    svds: Vec<(String, String)>,
}

impl TargetRegistry {
    /// The ids of the registered configs, in registration order (repeats included).
    pub closed spec fn config_ids(&self) -> Seq<Seq<char>> {
        self.configs@.map_values(|c: TargetConfig| c.id@)
    }

    /// The registered configs, in registration order.
    pub closed spec fn spec_configs(&self) -> Seq<TargetConfig> {
        self.configs@
    }

    /// The registered SVD files (file name, contents), in registration order.
    pub closed spec fn spec_svds(&self) -> Seq<(Seq<char>, Seq<char>)> {
        self.svds@.map_values(|p: (String, String)| (p.0@, p.1@))
    }

    /// The config in effect for `id`: the last one registered with that id.
    pub open spec fn config_for(&self, id: Seq<char>) -> Option<TargetConfig> {
        last_config(self.spec_configs(), id, self.spec_configs().len() as int)
    }

    /// A registry of the given (config, SVD contents) pairs, each SVD kept under the config's
    /// SVD file name.
    pub fn from_configs(pairs: Vec<(TargetConfig, String)>) -> (r: Self)
        ensures
            r.spec_configs() == pairs@.map_values(|p: (TargetConfig, String)| p.0),
            r.spec_svds() == pairs@.map_values(|p: (TargetConfig, String)| (p.0.svd_file@, p.1@)),
    {
        let mut configs: Vec<TargetConfig> = Vec::new();
        let mut svds: Vec<(String, String)> = Vec::new();
        let ghost src = pairs@;
        let mut rest = pairs;
        let n = rest.len();
        let mut i: usize = 0;
        assert(configs@ =~= src.subrange(0, 0).map_values(|p: (TargetConfig, String)| p.0));
        assert(svds@.map_values(|p: (String, String)| (p.0@, p.1@)) =~= src.subrange(0, 0).map_values(
            |p: (TargetConfig, String)| (p.0.svd_file@, p.1@),
        ));
        while i < n
            invariant
                n == src.len(),
                i <= n,
                rest@ == src.subrange(i as int, n as int),
                configs@ == src.subrange(0, i as int).map_values(|p: (TargetConfig, String)| p.0),
                svds@.map_values(|p: (String, String)| (p.0@, p.1@)) == src.subrange(0, i as int).map_values(
                    |p: (TargetConfig, String)| (p.0.svd_file@, p.1@),
                ),
            decreases n - i,
        {
            let (c, s) = rest.remove(0);
            assert((c, s) == src[i as int]);
            let f = c.svd_file.clone();
            assert(f@ == src[i as int].0.svd_file@ && s@ == src[i as int].1@);
            let ghost cb = configs@;
            let ghost sb = svds@;
            svds.push((f, s));
            configs.push(c);
            proof {
                assert(svds@.map_values(|p: (String, String)| (p.0@, p.1@)) =~= sb.map_values(
                    |p: (String, String)| (p.0@, p.1@),
                ).push((src[i as int].0.svd_file@, src[i as int].1@)));
                assert(src.subrange(0, i + 1).map_values(|p: (TargetConfig, String)| (p.0.svd_file@, p.1@))
                    =~= src.subrange(0, i as int).map_values(|p: (TargetConfig, String)| (p.0.svd_file@, p.1@)).push(
                    (src[i as int].0.svd_file@, src[i as int].1@),
                ));
                assert(rest@ =~= src.subrange(i + 1, n as int));
                assert(configs@ =~= src.subrange(0, i + 1).map_values(|p: (TargetConfig, String)| p.0));
                assert(svds@.map_values(|p: (String, String)| (p.0@, p.1@)) =~= src.subrange(0, i + 1).map_values(
                    |p: (TargetConfig, String)| (p.0.svd_file@, p.1@),
                ));
            }
            i = i + 1;
        }
        assert(src.subrange(0, n as int) =~= src);
        TargetRegistry { configs, svds }
    }

    /// The config in effect for `id`, if any.
    pub fn get_config(&self, id: &str) -> (r: Option<&TargetConfig>)
        ensures
            match self.config_for(id@) {
                Some(c) => r == Some(&c),
                None => r is None,
            },
    {
        let mut i: usize = self.configs.len();
        while i > 0
            invariant
                i <= self.configs@.len(),
                self.config_for(id@) == last_config(self.configs@, id@, i as int),
            decreases i,
        {
            if str_eq(self.configs[i - 1].id.as_str(), id) {
                return Some(&self.configs[i - 1]);
            }
            i = i - 1;
        }
        None
    }

    /// The contents of the SVD file `file` registered last, if any.
    pub fn embedded_svd(&self, file: &str) -> (r: Option<&str>)
        ensures
            match last_svd(self.spec_svds(), file@, self.spec_svds().len() as int) {
                Some(x) => r matches Some(s) && s@ == x,
                None => r is None,
            },
    {
        let mut i: usize = self.svds.len();
        while i > 0
            invariant
                i <= self.svds@.len(),
                last_svd(self.spec_svds(), file@, self.spec_svds().len() as int) == last_svd(
                    self.spec_svds(),
                    file@,
                    i as int,
                ),
            decreases i,
        {
            assert(self.spec_svds()[i - 1] == (self.svds@[i - 1].0@, self.svds@[i - 1].1@));
            if str_eq(self.svds[i - 1].0.as_str(), file) {
                return Some(self.svds[i - 1].1.as_str());
            }
            i = i - 1;
        }
        None
    }

    /// The target spec of target `id` with the SVD contents `svd_xml`; an unknown id is
    /// refused.
    pub fn load_with_svd(&self, id: &str, svd_xml: &str) -> (r: Result<TargetSpec, String>)
        ensures
            match self.config_for(id@) {
                None => r matches Err(e) && e@ == "unknown target '"@ + id@ + "'"@,
                Some(c) => match spec_build(c, svd_xml@) {
                    Err(m) => r matches Err(e) && e@ == m,
                    Ok((ps, rs, vtb)) => r matches Ok(t) && t.name@ == c.name@ && t.vector_table_base == vtb
                        && t.peripherals@.map_values(|p: crate::target::PeripheralSpec| periph_view(p)) == ps,
                },
            },
    {
        match self.get_config(id) {
            None => Err(concat3("unknown target '", id, "'")),
            Some(c) => c.build_target_spec(svd_xml),
        }
    }

    /// The distinct ids of the registered configs, sorted.
    pub fn list_ids(&self) -> (r: Vec<&str>)
        ensures
            strictly_sorted(str_views(r@)),
            forall|s: Seq<char>| #[trigger] str_views(r@).contains(s) <==> self.config_ids().contains(s),
    {
        let mut ids: Vec<&str> = Vec::new();
        let ghost all = self.config_ids();
        let mut i: usize = 0;
        while i < self.configs.len()
            invariant
                i <= self.configs@.len(),
                all == self.config_ids(),
                all.len() == self.configs@.len(),
                strictly_sorted(str_views(ids@)),
                forall|s: Seq<char>| #[trigger] str_views(ids@).contains(s) <==> all.subrange(0, i as int).contains(s),
            decreases self.configs@.len() - i,
        {
            let id = self.configs[i].id.as_str();
            assert(all[i as int] == id@);
            let ghost before = str_views(ids@);
            insert_sorted(&mut ids, id);
            assert forall|s: Seq<char>| str_views(ids@).contains(s) <==> all.subrange(0, i + 1).contains(s) by {
                assert(str_views(ids@).contains(s) == (before.contains(s) || s == id@));
                assert(before.contains(s) == all.subrange(0, i as int).contains(s));
                assert(all.subrange(0, i + 1) =~= all.subrange(0, i as int).push(id@));
                if s == id@ {
                    assert(all.subrange(0, i + 1)[i as int] == s);
                }
                if all.subrange(0, i + 1).contains(s) {
                    let k = choose|k: int| 0 <= k < i + 1 && #[trigger] all.subrange(0, i + 1)[k] == s;
                    if k < i {
                        assert(all.subrange(0, i as int)[k] == s);
                    }
                }
                if all.subrange(0, i as int).contains(s) {
                    let k = choose|k: int| 0 <= k < i && #[trigger] all.subrange(0, i as int)[k] == s;
                    assert(all.subrange(0, i + 1)[k] == s);
                }
            }
            i = i + 1;
        }
        assert(all.subrange(0, i as int) =~= all);
        ids
    }
}

/// Inserts `id` into the strictly sorted `ids` at its place, unless it is there already.
fn insert_sorted<'a>(ids: &mut Vec<&'a str>, id: &'a str)
    requires
        strictly_sorted(str_views(old(ids)@)),
    ensures
        strictly_sorted(str_views(final(ids)@)),
        forall|s: Seq<char>| #[trigger] str_views(final(ids)@).contains(s) <==> (str_views(old(ids)@).contains(s) || s == id@),
{
    let ghost v0 = str_views(ids@);
    let n = ids.len();
    let mut k: usize = 0;
    while k < n && str_less(ids[k], id)
        invariant
            n == ids@.len(),
            k <= n,
            v0 == str_views(ids@),
            forall|j: int| 0 <= j < k ==> str_lt(#[trigger] v0[j], id@),
        decreases n - k,
    {
        assert(v0[k as int] == ids@[k as int]@);
        k = k + 1;
    }
    if k < n && str_eq(ids[k], id) {
        assert(v0[k as int] == id@);
        assert forall|s: Seq<char>| v0.contains(s) <==> (v0.contains(s) || s == id@) by {
            if s == id@ {
                assert(v0[k as int] == s);
            }
        }
        return;
    }
    proof {
        if k < n {
            assert(v0[k as int] == ids@[k as int]@);
            lemma_str_lt_total(v0[k as int], id@);
        }
    }
    ids.insert(k, id);
    let ghost v1 = str_views(ids@);
    assert(v1 =~= v0.insert(k as int, id@));
    assert forall|i: int, j: int| 0 <= i < j < v1.len() implies str_lt(#[trigger] v1[i], #[trigger] v1[j]) by {
        if j < k {
        } else if j == k {
        } else if i < k {
            assert(v1[j] == v0[j - 1]);
            if j - 1 > k {
                lemma_str_lt_transitive(v0[i], v0[k as int], v0[j - 1]);
            }
        } else if i == k {
            assert(v1[j] == v0[j - 1]);
            if j - 1 > k {
                lemma_str_lt_transitive(id@, v0[k as int], v0[j - 1]);
            }
        } else {
            assert(v1[i] == v0[i - 1] && v1[j] == v0[j - 1]);
        }
    }
    assert forall|s: Seq<char>| v1.contains(s) <==> (v0.contains(s) || s == id@) by {
        if v1.contains(s) {
            let i = choose|i: int| 0 <= i < v1.len() && #[trigger] v1[i] == s;
            if i < k {
                assert(v0[i] == s);
            } else if i > k {
                assert(v0[i - 1] == s);
            }
        }
        if v0.contains(s) {
            let i = choose|i: int| 0 <= i < v0.len() && #[trigger] v0[i] == s;
            if i < k {
                assert(v1[i] == s);
            } else {
                assert(v1[i + 1] == s);
            }
        }
        if s == id@ {
            assert(v1[k as int] == s);
        }
    }
}

/// The contents of the last of the first `n` SVD files named `file`.
pub open spec fn last_svd(svds: Seq<(Seq<char>, Seq<char>)>, file: Seq<char>, n: int) -> Option<Seq<char>>
    decreases n,
{
    if n <= 0 {
        None
    } else if svds[n - 1].0 == file {
        Some(svds[n - 1].1)
    } else {
        last_svd(svds, file, n - 1)
    }
}

/// The last config among the first `n` with id `id`.
pub open spec fn last_config(cs: Seq<TargetConfig>, id: Seq<char>, n: int) -> Option<TargetConfig>
    decreases n,
{
    if n <= 0 {
        None
    } else if cs[n - 1].id@ == id {
        Some(cs[n - 1])
    } else {
        last_config(cs, id, n - 1)
    }
}

} // verus!
