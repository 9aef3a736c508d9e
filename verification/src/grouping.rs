//! Grouping of player instances: which identity groups are the same page
//! (and are merged), and which running presences are re-keyed or dropped
//! once groups change.
use vstd::prelude::*;
use crate::cover::provider::strings_contain;
use crate::cover::cache::strs;
use crate::metadata::{first_query_value, first_value};
use crate::sorting::{insert_by, lemma_insert_by_at, lemma_sort_by_ignores_order, sort_by, strict_on};
use crate::text::{char_len, concat_str, lemma_lex_irreflexive, lemma_lex_total, lemma_lex_transitive, lex_less, opt_view, str_eq, str_less};
use crate::urls::{parse_url, url_parts};

verus! {

/// What one identity group reports: its key, the richest metadata among
/// its players, and the page address each player reports (empty when
/// none).
#[derive(Debug, Clone)]
pub struct GroupSnapshot {
    pub norm_id: String,
    pub max_richness: u8,
    pub urls: Vec<String>,
}

pub struct GroupV {
    pub norm: Seq<char>,
    pub richness: u8,
    pub urls: Seq<Seq<char>>,
}

impl View for GroupSnapshot {
    type V = GroupV;

    open spec fn view(&self) -> GroupV {
        GroupV { norm: self.norm_id@, richness: self.max_richness, urls: strs(self.urls@) }
    }
}

pub open spec fn group_views(s: Seq<GroupSnapshot>) -> Seq<GroupV> {
    s.map_values(|g: GroupSnapshot| g@)
}

/// Richer groups first, then by key.
pub open spec fn group_before(a: GroupV, b: GroupV) -> bool {
    a.richness > b.richness || (a.richness == b.richness && lex_less(a.norm, b.norm))
}

pub open spec fn group_order() -> spec_fn(GroupV, GroupV) -> bool {
    |a: GroupV, b: GroupV| group_before(a, b)
}

/// `scheme://host` of an address that has a host.
pub open spec fn origin_spec(url: Seq<char>) -> Option<Seq<char>> {
    match url_parts(url) {
        Some(p) => match p.host {
            Some(h) => Some(p.scheme + "://"@ + h),
            None => None,
        },
        None => None,
    }
}

/// An address with nothing beyond its origin: an empty or `/` path and no
/// query.
pub open spec fn origin_only_spec(url: Seq<char>) -> bool {
    match url_parts(url) {
        Some(p) => (p.path.len() == 0 || p.path == seq!['/']) && p.query is None,
        None => false,
    }
}

/// Addresses and origins already claimed, each with the group that claimed
/// it, in the order they were claimed.
pub struct RegistryV {
    pub urls: Seq<(Seq<char>, Seq<char>)>,
    pub origins: Seq<(Seq<char>, Seq<char>)>,
}

/// Where the scan stands: a merge of one group into another was found, or
/// the claims so far.
pub enum ScanV {
    Merged(Seq<char>, Seq<char>),
    Open(RegistryV),
}

/// The group other than `norm` that claimed `key`, if any.
pub open spec fn other_claim(pairs: Seq<(Seq<char>, Seq<char>)>, key: Seq<char>, norm: Seq<char>) -> Option<Seq<char>> {
    match first_value(pairs, key) {
        Some(e) => if e != norm { Some(e) } else { None },
        None => None,
    }
}

/// The first group other than `norm` that claimed an address on `origin`.
pub open spec fn same_origin_claim(urls: Seq<(Seq<char>, Seq<char>)>, norm: Seq<char>, origin: Seq<char>) -> Option<Seq<char>>
    decreases urls.len(),
{
    if urls.len() == 0 {
        None
    } else if urls[0].1 != norm && origin_spec(urls[0].0) == Some(origin) {
        Some(urls[0].1)
    } else {
        same_origin_claim(urls.drop_first(), norm, origin)
    }
}

/// One address of group `norm`: a group that claimed the same address, or
/// (as an origin-only address) the same origin, absorbs it; an origin-only
/// address also merges into a group that claimed an address on its origin;
/// otherwise the address (and an origin-only address's origin) is claimed.
pub open spec fn url_step(reg: RegistryV, norm: Seq<char>, url: Seq<char>) -> ScanV {
    if url.len() == 0 {
        ScanV::Open(reg)
    } else {
        match first_value(reg.urls, url) {
            Some(e) => if e != norm { ScanV::Merged(norm, e) } else { ScanV::Open(reg) },
            None => {
                let origin = origin_spec(url);
                let claimed = match origin {
                    Some(o) => other_claim(reg.origins, o, norm),
                    None => None,
                };
                if claimed is Some {
                    ScanV::Merged(norm, claimed->0)
                } else if origin_only_spec(url) {
                    let richer = match origin {
                        Some(o) => same_origin_claim(reg.urls, norm, o),
                        None => None,
                    };
                    if richer is Some {
                        ScanV::Merged(norm, richer->0)
                    } else {
                        ScanV::Open(RegistryV {
                            urls: reg.urls.push((url, norm)),
                            origins: match origin {
                                Some(o) => if first_value(reg.origins, o) is Some {
                                    reg.origins
                                } else {
                                    reg.origins.push((o, norm))
                                },
                                None => reg.origins,
                            },
                        })
                    }
                } else {
                    ScanV::Open(RegistryV { urls: reg.urls.push((url, norm)), origins: reg.origins })
                }
            },
        }
    }
}

/// The addresses of one group, in order, until a merge is found.
pub open spec fn group_scan(reg: RegistryV, norm: Seq<char>, urls: Seq<Seq<char>>) -> ScanV
    decreases urls.len(),
{
    if urls.len() == 0 {
        ScanV::Open(reg)
    } else {
        match group_scan(reg, norm, urls.drop_last()) {
            ScanV::Merged(a, b) => ScanV::Merged(a, b),
            ScanV::Open(r) => url_step(r, norm, urls.last()),
        }
    }
}

pub open spec fn empty_registry() -> RegistryV {
    RegistryV { urls: Seq::empty(), origins: Seq::empty() }
}

/// The groups, in order, until a merge is found.
pub open spec fn groups_scan(gs: Seq<GroupV>) -> ScanV
    decreases gs.len(),
{
    if gs.len() == 0 {
        ScanV::Open(empty_registry())
    } else {
        match groups_scan(gs.drop_last()) {
            ScanV::Merged(a, b) => ScanV::Merged(a, b),
            ScanV::Open(r) => group_scan(r, gs.last().norm, gs.last().urls),
        }
    }
}

/// The merge to apply, as `(from, into)`: the first one found scanning the
/// groups richest first (then by key); none when no two groups share a
/// page.
pub open spec fn url_merges(groups: Seq<GroupV>) -> Seq<(Seq<char>, Seq<char>)> {
    match groups_scan(sort_by(groups, group_order())) {
        ScanV::Merged(a, b) => seq![(a, b)],
        ScanV::Open(_) => Seq::empty(),
    }
}

proof fn lemma_group_scan_merged(reg: RegistryV, norm: Seq<char>, urls: Seq<Seq<char>>, k: int)
    requires
        0 <= k <= urls.len(),
        group_scan(reg, norm, urls.take(k)) is Merged,
    ensures
        group_scan(reg, norm, urls) == group_scan(reg, norm, urls.take(k)),
    decreases urls.len() - k,
{
    if k < urls.len() {
        assert(urls.take(k + 1).drop_last() =~= urls.take(k));
        lemma_group_scan_merged(reg, norm, urls, k + 1);
    } else {
        assert(urls.take(k) =~= urls);
    }
}

proof fn lemma_groups_scan_merged(gs: Seq<GroupV>, k: int)
    requires
        0 <= k <= gs.len(),
        groups_scan(gs.take(k)) is Merged,
    ensures
        groups_scan(gs) == groups_scan(gs.take(k)),
    decreases gs.len() - k,
{
    if k < gs.len() {
        assert(gs.take(k + 1).drop_last() =~= gs.take(k));
        lemma_groups_scan_merged(gs, k + 1);
    } else {
        assert(gs.take(k) =~= gs);
    }
}

/// `scheme://host` of an address.
pub fn origin_of(url: &str) -> (r: Option<String>)
    ensures
        opt_view(r) == origin_spec(url@),
{
    match parse_url(url) {
        Some(p) => match &p.host {
            Some(h) => {
                let head = concat_str(p.scheme.as_str(), "://");
                Some(concat_str(head.as_str(), h.as_str()))
            },
            None => None,
        },
        None => None,
    }
}

/// Whether an address has nothing beyond its origin.
pub fn is_origin_only(url: &str) -> (r: bool)
    ensures
        r == origin_only_spec(url@),
{
    proof {
        reveal_strlit("/");
        assert("/"@ =~= seq!['/']);
    }
    match parse_url(url) {
        Some(p) => (char_len(p.path.as_str()) == 0 || str_eq(p.path.as_str(), "/")) && p.query.is_none(),
        None => false,
    }
}

pub open spec fn pair_views(v: Seq<(String, String)>) -> Seq<(Seq<char>, Seq<char>)> {
    v.map_values(|p: (String, String)| (p.0@, p.1@))
}

fn same_origin_owner(urls: &Vec<(String, String)>, norm: &str, origin: &str) -> (r: Option<String>)
    ensures
        opt_view(r) == same_origin_claim(pair_views(urls@), norm@, origin@),
{
    let ghost ps = pair_views(urls@);
    assert(ps.skip(0) =~= ps);
    let mut i: usize = 0;
    while i < urls.len()
        invariant
            i <= urls@.len(),
            ps == pair_views(urls@),
            same_origin_claim(ps, norm@, origin@) == same_origin_claim(ps.skip(i as int), norm@, origin@),
        decreases urls@.len() - i,
    {
        assert(ps.skip(i as int).drop_first() =~= ps.skip(i + 1));
        assert(ps.skip(i as int)[0] == ps[i as int]);
        if !str_eq(urls[i].1.as_str(), norm) {
            match origin_of(urls[i].0.as_str()) {
                Some(o) => {
                    if str_eq(o.as_str(), origin) {
                        return Some(urls[i].1.clone());
                    }
                },
                None => {},
            }
        }
        i += 1;
    }
    assert(ps.skip(i as int) =~= Seq::<(Seq<char>, Seq<char>)>::empty());
    None
}

fn clone_group(g: &GroupSnapshot) -> (r: GroupSnapshot)
    ensures
        r@ == g@,
{
    GroupSnapshot {
        norm_id: g.norm_id.clone(),
        max_richness: g.max_richness,
        urls: crate::config::clone_vec(&g.urls),
    }
}

fn group_comes_before(a: &GroupSnapshot, b: &GroupSnapshot) -> (r: bool)
    ensures
        r == group_before(a@, b@),
{
    a.max_richness > b.max_richness || (a.max_richness == b.max_richness && str_less(a.norm_id.as_str(), b.norm_id.as_str()))
}

/// The groups richest first, then by key.
pub fn sort_groups(groups: &Vec<GroupSnapshot>) -> (r: Vec<GroupSnapshot>)
    ensures
        group_views(r@) == sort_by(group_views(groups@), group_order()),
{
    let ghost vs = group_views(groups@);
    let mut out: Vec<GroupSnapshot> = Vec::new();
    let mut k: usize = 0;
    while k < groups.len()
        invariant
            k <= groups@.len(),
            vs == group_views(groups@),
            group_views(out@) == sort_by(vs.take(k as int), group_order()),
        decreases groups@.len() - k,
    {
        assert(vs.take(k + 1).drop_last() =~= vs.take(k as int));
        let x = clone_group(&groups[k]);
        let ghost sv = group_views(out@);
        let mut j: usize = 0;
        while j < out.len() && !group_comes_before(&x, &out[j])
            invariant
                j <= out@.len(),
                sv == group_views(out@),
                forall|m: int| 0 <= m < j ==> !(group_order())(x@, #[trigger] sv[m]),
            decreases out@.len() - j,
        {
            j += 1;
        }
        proof { lemma_insert_by_at(sv, x@, group_order(), j as int); }
        let ghost xv = x@;
        out.insert(j, x);
        assert(group_views(out@) =~= sv.take(j as int) + seq![xv] + sv.skip(j as int));
        k += 1;
    }
    assert(vs.take(groups@.len() as int) =~= vs);
    out
}

/// The merge of identity groups that show the same page, as `(from, into)`:
/// groups are scanned richest first (then by key), and the first group
/// whose address (or origin, for a bare origin address) another group
/// already claimed merges into that group. At most one merge is returned.
pub fn compute_url_merges(groups: &Vec<GroupSnapshot>) -> (r: Vec<(String, String)>)
    ensures
        pair_views(r@) == url_merges(group_views(groups@)),
{
    let sorted = sort_groups(groups);
    let ghost gs = group_views(sorted@);
    let mut urls: Vec<(String, String)> = Vec::new();
    let mut origins: Vec<(String, String)> = Vec::new();
    let mut i: usize = 0;
    assert(pair_views(urls@) =~= Seq::<(Seq<char>, Seq<char>)>::empty());
    assert(pair_views(origins@) =~= Seq::<(Seq<char>, Seq<char>)>::empty());
    while i < sorted.len()
        invariant
            i <= sorted@.len(),
            gs == group_views(sorted@),
            gs == sort_by(group_views(groups@), group_order()),
            groups_scan(gs.take(i as int)) == ScanV::Open(RegistryV { urls: pair_views(urls@), origins: pair_views(origins@) }),
        decreases sorted@.len() - i,
    {
        let g = &sorted[i];
        let norm = g.norm_id.as_str();
        let ghost start = RegistryV { urls: pair_views(urls@), origins: pair_views(origins@) };
        let ghost gv = gs[i as int];
        assert(gv == g@);
        assert(gs.take(i + 1).drop_last() =~= gs.take(i as int));
        assert(gs.take(i + 1).last() == gv);
        let mut k: usize = 0;
        assert(gv.urls.take(0) =~= Seq::<Seq<char>>::empty());
        while k < g.urls.len()
            invariant
                k <= g.urls@.len(),
                i < sorted@.len(),
                g == &sorted@[i as int],
                norm@ == gv.norm,
                gv == g@,
                gs == group_views(sorted@),
                gs == sort_by(group_views(groups@), group_order()),
                groups_scan(gs.take(i as int)) == ScanV::Open(start),
                gs.take(i + 1).drop_last() == gs.take(i as int),
                gs.take(i + 1).last() == gv,
                group_scan(start, gv.norm, gv.urls.take(k as int))
                    == ScanV::Open(RegistryV { urls: pair_views(urls@), origins: pair_views(origins@) }),
            decreases g.urls@.len() - k,
        {
            let url = g.urls[k].as_str();
            let ghost reg = RegistryV { urls: pair_views(urls@), origins: pair_views(origins@) };
            assert(gv.urls.take(k + 1).drop_last() =~= gv.urls.take(k as int));
            assert(gv.urls.take(k + 1).last() == url@);
            let ghost step = url_step(reg, gv.norm, url@);
            assert(group_scan(start, gv.norm, gv.urls.take(k + 1)) == step);
            if char_len(url) == 0 {
                k += 1;
                continue;
            }
            let existing = first_query_value(&urls, url);
            match existing {
                Some(e) => {
                    if !str_eq(e.as_str(), norm) {
                        proof {
                            lemma_group_scan_merged(start, gv.norm, gv.urls, k + 1);
                            assert(gv.urls.take(gv.urls.len() as int) =~= gv.urls);
                            assert(groups_scan(gs.take(i + 1)) == step);
                            lemma_groups_scan_merged(gs, i + 1);
                        }
                        let mut out: Vec<(String, String)> = Vec::new();
                        out.push((g.norm_id.clone(), e));
                        assert(pair_views(out@) =~= seq![(gv.norm, step->Merged_1)]);
                        return out;
                    }
                    k += 1;
                    continue;
                },
                None => {},
            }
            let origin = origin_of(url);
            let claimed = match &origin {
                Some(o) => match first_query_value(&origins, o.as_str()) {
                    Some(e) => if !str_eq(e.as_str(), norm) { Some(e) } else { None },
                    None => None,
                },
                None => None,
            };
            let mut found: Option<String> = None;
            match claimed {
                Some(e) => { found = Some(e); },
                None => {
                    if is_origin_only(url) {
                        let richer = match &origin {
                            Some(o) => same_origin_owner(&urls, norm, o.as_str()),
                            None => None,
                        };
                        match richer {
                            Some(e) => { found = Some(e); },
                            None => {
                                urls.push((url.to_owned(), g.norm_id.clone()));
                                match origin {
                                    Some(o) => {
                                        let ghost ov = o@;
                                        if first_query_value(&origins, o.as_str()).is_none() {
                                            origins.push((o, g.norm_id.clone()));
                                            assert(pair_views(origins@) =~= reg.origins.push((ov, gv.norm)));
                                        }
                                    },
                                    None => {},
                                }
                            },
                        }
                    } else {
                        urls.push((url.to_owned(), g.norm_id.clone()));
                    }
                },
            }
            match found {
                Some(e) => {
                    proof {
                        assert(step == ScanV::Merged(gv.norm, e@));
                        lemma_group_scan_merged(start, gv.norm, gv.urls, k + 1);
                        assert(gv.urls.take(gv.urls.len() as int) =~= gv.urls);
                        assert(groups_scan(gs.take(i + 1)) == step);
                        lemma_groups_scan_merged(gs, i + 1);
                    }
                    let mut out: Vec<(String, String)> = Vec::new();
                    out.push((g.norm_id.clone(), e));
                    assert(pair_views(out@) =~= seq![(gv.norm, e@)]);
                    return out;
                },
                None => {},
            }
            assert(pair_views(urls@) =~= reg.urls.push((url@, gv.norm)));
            assert(step == ScanV::Open(RegistryV { urls: pair_views(urls@), origins: pair_views(origins@) }));
            k += 1;
        }
        assert(gv.urls.take(g.urls@.len() as int) =~= gv.urls);
        i += 1;
    }
    assert(gs.take(sorted@.len() as int) =~= gs);
    Vec::new()
}

/// A post-merge group: its key, the buses of its players, and the bus that
/// won it.
#[derive(Debug, Clone)]
pub struct BucketSummary {
    pub norm_id: String,
    pub bus_names: Vec<String>,
    pub winner_bus: String,
}

/// A running presence to move from one key to another.
#[derive(Debug, Clone, PartialEq, Eq)]
pub struct PresenceMigration {
    pub from_key: String,
    pub to_key: String,
}

/// A running presence to stop because another one took its group.
#[derive(Debug, Clone, PartialEq, Eq)]
pub struct PresenceDrop {
    pub key: String,
    pub superseded_by: String,
}

pub struct BucketV {
    pub norm: Seq<char>,
    pub buses: Seq<Seq<char>>,
    pub winner: Seq<char>,
}

impl View for BucketSummary {
    type V = BucketV;

    open spec fn view(&self) -> BucketV {
        BucketV { norm: self.norm_id@, buses: strs(self.bus_names@), winner: self.winner_bus@ }
    }
}

/// The presences (key, bus) bound to a bus of the bucket, in the given
/// order.
pub open spec fn bucket_matches(existing: Seq<(Seq<char>, Seq<char>)>, b: BucketV) -> Seq<(Seq<char>, Seq<char>)>
    decreases existing.len(),
{
    if existing.len() == 0 {
        Seq::empty()
    } else {
        let prev = bucket_matches(existing.drop_last(), b);
        if b.buses.contains(existing.last().1) { prev.push(existing.last()) } else { prev }
    }
}

/// Which presence keeps a bucket: one already under the bucket's key, then
/// one bound to the winning bus, then the smaller key.
pub open spec fn presence_before(b: BucketV, x: (Seq<char>, Seq<char>), y: (Seq<char>, Seq<char>)) -> bool {
    let xc = x.0 == b.norm;
    let yc = y.0 == b.norm;
    if xc != yc {
        xc
    } else {
        let xw = x.1 == b.winner;
        let yw = y.1 == b.winner;
        if xw != yw { xw } else { lex_less(x.0, y.0) }
    }
}

pub open spec fn presence_order(b: BucketV) -> spec_fn((Seq<char>, Seq<char>), (Seq<char>, Seq<char>)) -> bool {
    |x: (Seq<char>, Seq<char>), y: (Seq<char>, Seq<char>)| presence_before(b, x, y)
}

/// The bucket's presences, the one that keeps it first.
pub open spec fn ranked_matches(existing: Seq<(Seq<char>, Seq<char>)>, b: BucketV) -> Seq<(Seq<char>, Seq<char>)> {
    sort_by(bucket_matches(existing, b), presence_order(b))
}

/// Moves (from, to): a bucket's keeping presence moves to the bucket's key
/// when it is under another key.
pub open spec fn migrations_spec(existing: Seq<(Seq<char>, Seq<char>)>, buckets: Seq<BucketV>) -> Seq<(Seq<char>, Seq<char>)>
    decreases buckets.len(),
{
    if buckets.len() == 0 {
        Seq::empty()
    } else {
        let prev = migrations_spec(existing, buckets.drop_last());
        let b = buckets.last();
        let m = ranked_matches(existing, b);
        if m.len() > 0 && m[0].0 != b.norm { prev.push((m[0].0, b.norm)) } else { prev }
    }
}

/// Drops (key, superseded by): every other presence of a bucket, in rank
/// order, superseded by the keeping one.
pub open spec fn drops_spec(existing: Seq<(Seq<char>, Seq<char>)>, buckets: Seq<BucketV>) -> Seq<(Seq<char>, Seq<char>)>
    decreases buckets.len(),
{
    if buckets.len() == 0 {
        Seq::empty()
    } else {
        let prev = drops_spec(existing, buckets.drop_last());
        let b = buckets.last();
        let m = ranked_matches(existing, b);
        if m.len() > 0 {
            prev + m.drop_first().map_values(|x: (Seq<char>, Seq<char>)| (x.0, m[0].0))
        } else {
            prev
        }
    }
}

pub open spec fn migration_views(v: Seq<PresenceMigration>) -> Seq<(Seq<char>, Seq<char>)> {
    v.map_values(|m: PresenceMigration| (m.from_key@, m.to_key@))
}

pub open spec fn drop_views(v: Seq<PresenceDrop>) -> Seq<(Seq<char>, Seq<char>)> {
    v.map_values(|d: PresenceDrop| (d.key@, d.superseded_by@))
}

pub open spec fn bucket_views(v: Seq<BucketSummary>) -> Seq<BucketV> {
    v.map_values(|b: BucketSummary| b@)
}

fn presence_comes_before(b: &BucketSummary, x: &(String, String), y: &(String, String)) -> (r: bool)
    ensures
        r == presence_before(b@, (x.0@, x.1@), (y.0@, y.1@)),
{
    let xc = str_eq(x.0.as_str(), b.norm_id.as_str());
    let yc = str_eq(y.0.as_str(), b.norm_id.as_str());
    if xc != yc {
        return xc;
    }
    let xw = str_eq(x.1.as_str(), b.winner_bus.as_str());
    let yw = str_eq(y.1.as_str(), b.winner_bus.as_str());
    if xw != yw {
        return xw;
    }
    str_less(x.0.as_str(), y.0.as_str())
}

fn ranked(existing: &Vec<(String, String)>, b: &BucketSummary) -> (r: Vec<(String, String)>)
    ensures
        pair_views(r@) == ranked_matches(pair_views(existing@), b@),
{
    let ghost es = pair_views(existing@);
    let mut matches: Vec<(String, String)> = Vec::new();
    let mut i: usize = 0;
    while i < existing.len()
        invariant
            i <= existing@.len(),
            es == pair_views(existing@),
            pair_views(matches@) == bucket_matches(es.take(i as int), b@),
        decreases existing@.len() - i,
    {
        assert(es.take(i + 1).drop_last() =~= es.take(i as int));
        if strings_contain(&b.bus_names, existing[i].1.as_str()) {
            let ghost prev = pair_views(matches@);
            matches.push((existing[i].0.clone(), existing[i].1.clone()));
            assert(pair_views(matches@) =~= prev.push(es[i as int]));
        }
        i += 1;
    }
    assert(es.take(existing@.len() as int) =~= es);
    let ghost ms = pair_views(matches@);
    let mut out: Vec<(String, String)> = Vec::new();
    let mut k: usize = 0;
    while k < matches.len()
        invariant
            k <= matches@.len(),
            ms == pair_views(matches@),
            ms == bucket_matches(es, b@),
            pair_views(out@) == sort_by(ms.take(k as int), presence_order(b@)),
        decreases matches@.len() - k,
    {
        assert(ms.take(k + 1).drop_last() =~= ms.take(k as int));
        let x = (matches[k].0.clone(), matches[k].1.clone());
        let ghost sv = pair_views(out@);
        let mut j: usize = 0;
        while j < out.len() && !presence_comes_before(b, &x, &out[j])
            invariant
                j <= out@.len(),
                sv == pair_views(out@),
                forall|m: int| 0 <= m < j ==> !(presence_order(b@))((x.0@, x.1@), #[trigger] sv[m]),
            decreases out@.len() - j,
        {
            j += 1;
        }
        proof { lemma_insert_by_at(sv, (x.0@, x.1@), presence_order(b@), j as int); }
        let ghost xv = (x.0@, x.1@);
        out.insert(j, x);
        assert(pair_views(out@) =~= sv.take(j as int) + seq![xv] + sv.skip(j as int));
        k += 1;
    }
    assert(ms.take(matches@.len() as int) =~= ms);
    out
}

/// Which running presences (key, bound bus) move to a bucket's key and
/// which stop: in each bucket, the presence already under the bucket's key
/// keeps it, else the one on the winning bus, else the smaller key; it
/// moves to the bucket's key if needed, and the bucket's other presences
/// are dropped in favour of it.
pub fn compute_presence_migrations(
    existing: &Vec<(String, String)>,
    buckets: &Vec<BucketSummary>,
) -> (r: (Vec<PresenceMigration>, Vec<PresenceDrop>))
    ensures
        migration_views(r.0@) == migrations_spec(pair_views(existing@), bucket_views(buckets@)),
        drop_views(r.1@) == drops_spec(pair_views(existing@), bucket_views(buckets@)),
{
    let ghost es = pair_views(existing@);
    let ghost bs = bucket_views(buckets@);
    let mut migrations: Vec<PresenceMigration> = Vec::new();
    let mut drops: Vec<PresenceDrop> = Vec::new();
    let mut i: usize = 0;
    while i < buckets.len()
        invariant
            i <= buckets@.len(),
            es == pair_views(existing@),
            bs == bucket_views(buckets@),
            migration_views(migrations@) == migrations_spec(es, bs.take(i as int)),
            drop_views(drops@) == drops_spec(es, bs.take(i as int)),
        decreases buckets@.len() - i,
    {
        assert(bs.take(i + 1).drop_last() =~= bs.take(i as int));
        let b = &buckets[i];
        assert(bs.take(i + 1).last() == b@);
        let m = ranked(existing, b);
        let ghost mv = pair_views(m@);
        if m.len() > 0 {
            let keeper = m[0].0.clone();
            if !str_eq(keeper.as_str(), b.norm_id.as_str()) {
                let ghost prev = migration_views(migrations@);
                migrations.push(PresenceMigration { from_key: keeper.clone(), to_key: b.norm_id.clone() });
                assert(migration_views(migrations@) =~= prev.push((mv[0].0, b@.norm)));
            }
            let ghost dstart = drop_views(drops@);
            let mut j: usize = 1;
            while j < m.len()
                invariant
                    1 <= j <= m@.len(),
                    mv == pair_views(m@),
                    keeper@ == mv[0].0,
                    drop_views(drops@) == dstart + mv.drop_first().take(j - 1).map_values(|x: (Seq<char>, Seq<char>)| (x.0, mv[0].0)),
                decreases m@.len() - j,
            {
                let ghost prev = drop_views(drops@);
                drops.push(PresenceDrop { key: m[j].0.clone(), superseded_by: keeper.clone() });
                assert(drop_views(drops@) =~= prev.push((mv[j as int].0, mv[0].0)));
                assert(mv.drop_first().take(j as int).map_values(|x: (Seq<char>, Seq<char>)| (x.0, mv[0].0))
                    =~= mv.drop_first().take(j - 1).map_values(|x: (Seq<char>, Seq<char>)| (x.0, mv[0].0)).push((mv[j as int].0, mv[0].0)));
                j += 1;
            }
            assert(mv.drop_first().take(m@.len() - 1) =~= mv.drop_first());
        }
        i += 1;
    }
    assert(bs.take(buckets@.len() as int) =~= bs);
    (migrations, drops)
}

/// No two groups share a key.
pub open spec fn distinct_keys(gs: Seq<GroupV>) -> bool {
    forall|i: int, j: int| 0 <= i < gs.len() && 0 <= j < gs.len() && i != j ==> #[trigger] gs[i].norm != #[trigger] gs[j].norm
}

proof fn lemma_group_order_strict(gs: Seq<GroupV>)
    requires
        distinct_keys(gs),
    ensures
        strict_on(gs, group_order()),
        gs.no_duplicates(),
{
    let before = group_order();
    assert forall|a: GroupV| #[trigger] gs.contains(a) implies !before(a, a) by {
        lemma_lex_irreflexive(a.norm);
    }
    assert forall|a: GroupV, b: GroupV, c: GroupV|
        gs.contains(a) && gs.contains(b) && gs.contains(c) && #[trigger] before(a, b) && #[trigger] before(b, c)
        implies before(a, c) by {
        if a.richness == b.richness && b.richness == c.richness {
            lemma_lex_transitive(a.norm, b.norm, c.norm);
        }
    }
    assert forall|a: GroupV, b: GroupV| #[trigger] gs.contains(a) && #[trigger] gs.contains(b) && a != b
        implies before(a, b) || before(b, a) by {
        let i = choose|i: int| 0 <= i < gs.len() && gs[i] == a;
        let j = choose|j: int| 0 <= j < gs.len() && gs[j] == b;
        assert(i != j);
        assert(gs[i].norm != gs[j].norm);
        lemma_lex_total(a.norm, b.norm);
    }
    assert forall|i: int, j: int| 0 <= i < gs.len() && 0 <= j < gs.len() && i != j implies gs[i] != gs[j] by {
        assert(gs[i].norm != gs[j].norm);
    }
}

/// The merge does not depend on the order the groups come in: groups with
/// distinct keys, given in any order, give the same merge.
pub proof fn law_merge_ignores_input_order(g1: Seq<GroupV>, g2: Seq<GroupV>)
    requires
        g1.to_multiset() == g2.to_multiset(),
        distinct_keys(g1),
    ensures
        url_merges(g1) == url_merges(g2),
{
    lemma_group_order_strict(g1);
    lemma_sort_by_ignores_order(g1, g2, group_order());
}

/// No two presences share a key.
pub open spec fn distinct_presence_keys(es: Seq<(Seq<char>, Seq<char>)>) -> bool {
    forall|i: int, j: int| 0 <= i < es.len() && 0 <= j < es.len() && i != j ==> #[trigger] es[i].0 != #[trigger] es[j].0
}

proof fn lemma_matches_count(es: Seq<(Seq<char>, Seq<char>)>, b: BucketV, x: (Seq<char>, Seq<char>))
    ensures
        bucket_matches(es, b).to_multiset().count(x) == if b.buses.contains(x.1) { es.to_multiset().count(x) } else { 0 },
    decreases es.len(),
{
    broadcast use vstd::seq_lib::group_to_multiset_ensures;
    broadcast use vstd::multiset::group_multiset_axioms;
    if es.len() == 0 {
    } else {
        lemma_matches_count(es.drop_last(), b, x);
        assert(es.drop_last().push(es.last()) =~= es);
        let prev = bucket_matches(es.drop_last(), b);
        if b.buses.contains(es.last().1) {
            assert(prev.push(es.last()).to_multiset() == prev.to_multiset().insert(es.last()));
        }
        assert(es.drop_last().push(es.last()).to_multiset() == es.drop_last().to_multiset().insert(es.last()));
    }
}

proof fn lemma_matches_within(es: Seq<(Seq<char>, Seq<char>)>, b: BucketV)
    requires
        distinct_presence_keys(es),
    ensures
        distinct_presence_keys(bucket_matches(es, b)),
        forall|x: (Seq<char>, Seq<char>)| #[trigger] bucket_matches(es, b).contains(x) ==> es.contains(x),
    decreases es.len(),
{
    if es.len() > 0 {
        let d = es.drop_last();
        assert(distinct_presence_keys(d)) by {
            assert forall|i: int, j: int| 0 <= i < d.len() && 0 <= j < d.len() && i != j implies #[trigger] d[i].0 != #[trigger] d[j].0 by {
                assert(es[i].0 != es[j].0);
            }
        }
        lemma_matches_within(d, b);
        let prev = bucket_matches(d, b);
        assert forall|x: (Seq<char>, Seq<char>)| #[trigger] prev.contains(x) implies es.contains(x) by {
            assert(d.contains(x));
            let k = choose|k: int| 0 <= k < d.len() && d[k] == x;
            assert(es[k] == x);
        }
        if b.buses.contains(es.last().1) {
            let m = prev.push(es.last());
            assert(es.contains(es.last())) by { assert(es[es.len() - 1] == es.last()); }
            assert forall|x: (Seq<char>, Seq<char>)| #[trigger] m.contains(x) implies es.contains(x) by {
                let k = choose|k: int| 0 <= k < m.len() && m[k] == x;
                if k < prev.len() {
                    assert(prev[k] == x);
                    assert(prev.contains(x));
                }
            }
            assert forall|i: int, j: int| 0 <= i < m.len() && 0 <= j < m.len() && i != j implies #[trigger] m[i].0 != #[trigger] m[j].0 by {
                if i < prev.len() && j < prev.len() {
                    assert(prev[i].0 != prev[j].0);
                } else if i < prev.len() {
                    assert(prev.contains(prev[i]));
                    assert(d.contains(prev[i]));
                    let k = choose|k: int| 0 <= k < d.len() && d[k] == prev[i];
                    assert(es[k].0 != es[es.len() - 1].0);
                } else if j < prev.len() {
                    assert(prev.contains(prev[j]));
                    assert(d.contains(prev[j]));
                    let k = choose|k: int| 0 <= k < d.len() && d[k] == prev[j];
                    assert(es[k].0 != es[es.len() - 1].0);
                }
            }
        }
    }
}

proof fn lemma_presence_order_strict(ms: Seq<(Seq<char>, Seq<char>)>, b: BucketV)
    requires
        distinct_presence_keys(ms),
    ensures
        strict_on(ms, presence_order(b)),
        ms.no_duplicates(),
{
    let before = presence_order(b);
    assert forall|a: (Seq<char>, Seq<char>)| #[trigger] ms.contains(a) implies !before(a, a) by {
        lemma_lex_irreflexive(a.0);
    }
    assert forall|x: (Seq<char>, Seq<char>), y: (Seq<char>, Seq<char>), z: (Seq<char>, Seq<char>)|
        ms.contains(x) && ms.contains(y) && ms.contains(z) && #[trigger] before(x, y) && #[trigger] before(y, z)
        implies before(x, z) by {
        if (x.0 == b.norm) == (y.0 == b.norm) && (y.0 == b.norm) == (z.0 == b.norm)
            && (x.1 == b.winner) == (y.1 == b.winner) && (y.1 == b.winner) == (z.1 == b.winner) {
            lemma_lex_transitive(x.0, y.0, z.0);
        }
    }
    assert forall|x: (Seq<char>, Seq<char>), y: (Seq<char>, Seq<char>)| #[trigger] ms.contains(x) && #[trigger] ms.contains(y) && x != y
        implies before(x, y) || before(y, x) by {
        let i = choose|i: int| 0 <= i < ms.len() && ms[i] == x;
        let j = choose|j: int| 0 <= j < ms.len() && ms[j] == y;
        assert(i != j);
        assert(ms[i].0 != ms[j].0);
        lemma_lex_total(x.0, y.0);
    }
    assert forall|i: int, j: int| 0 <= i < ms.len() && 0 <= j < ms.len() && i != j implies ms[i] != ms[j] by {
        assert(ms[i].0 != ms[j].0);
    }
}

proof fn lemma_ranked_ignores_order(e1: Seq<(Seq<char>, Seq<char>)>, e2: Seq<(Seq<char>, Seq<char>)>, b: BucketV)
    requires
        e1.to_multiset() == e2.to_multiset(),
        distinct_presence_keys(e1),
    ensures
        ranked_matches(e1, b) == ranked_matches(e2, b),
{
    let m1 = bucket_matches(e1, b);
    let m2 = bucket_matches(e2, b);
    assert forall|x: (Seq<char>, Seq<char>)| m1.to_multiset().count(x) == m2.to_multiset().count(x) by {
        lemma_matches_count(e1, b, x);
        lemma_matches_count(e2, b, x);
    }
    assert(m1.to_multiset() =~= m2.to_multiset());
    lemma_matches_within(e1, b);
    lemma_presence_order_strict(m1, b);
    lemma_sort_by_ignores_order(m1, m2, presence_order(b));
}

/// Which presences move and which stop does not depend on the order in
/// which the running presences are listed (their keys being distinct).
pub proof fn law_migrations_ignore_listing_order(
    e1: Seq<(Seq<char>, Seq<char>)>,
    e2: Seq<(Seq<char>, Seq<char>)>,
    buckets: Seq<BucketV>,
)
    requires
        e1.to_multiset() == e2.to_multiset(),
        distinct_presence_keys(e1),
    ensures
        migrations_spec(e1, buckets) == migrations_spec(e2, buckets),
        drops_spec(e1, buckets) == drops_spec(e2, buckets),
    decreases buckets.len(),
{
    if buckets.len() > 0 {
        law_migrations_ignore_listing_order(e1, e2, buckets.drop_last());
        lemma_ranked_ignores_order(e1, e2, buckets.last());
    }
}

proof fn lemma_same_origin_claim_other(urls: Seq<(Seq<char>, Seq<char>)>, norm: Seq<char>, origin: Seq<char>)
    ensures
        same_origin_claim(urls, norm, origin) matches Some(e) ==> e != norm,
    decreases urls.len(),
{
    if urls.len() > 0 {
        lemma_same_origin_claim_other(urls.drop_first(), norm, origin);
    }
}

proof fn lemma_url_step_distinct(reg: RegistryV, norm: Seq<char>, url: Seq<char>)
    ensures
        url_step(reg, norm, url) matches ScanV::Merged(a, b) ==> a != b,
{
    match origin_spec(url) {
        Some(o) => lemma_same_origin_claim_other(reg.urls, norm, o),
        None => {},
    }
}

proof fn lemma_group_scan_distinct(reg: RegistryV, norm: Seq<char>, urls: Seq<Seq<char>>)
    ensures
        group_scan(reg, norm, urls) matches ScanV::Merged(a, b) ==> a != b,
    decreases urls.len(),
{
    if urls.len() > 0 {
        lemma_group_scan_distinct(reg, norm, urls.drop_last());
        match group_scan(reg, norm, urls.drop_last()) {
            ScanV::Merged(_, _) => {},
            ScanV::Open(r) => lemma_url_step_distinct(r, norm, urls.last()),
        }
    }
}

proof fn lemma_groups_scan_distinct(gs: Seq<GroupV>)
    ensures
        groups_scan(gs) matches ScanV::Merged(a, b) ==> a != b,
    decreases gs.len(),
{
    if gs.len() > 0 {
        lemma_groups_scan_distinct(gs.drop_last());
        match groups_scan(gs.drop_last()) {
            ScanV::Merged(_, _) => {},
            ScanV::Open(r) => lemma_group_scan_distinct(r, gs.last().norm, gs.last().urls),
        }
    }
}

/// A group is never merged into itself: the merge, when there is one,
/// joins two different keys.
pub proof fn law_merge_joins_two_groups(gs: Seq<GroupV>)
    ensures
        url_merges(gs).len() <= 1,
        url_merges(gs).len() == 1 ==> url_merges(gs)[0].0 != url_merges(gs)[0].1,
{
    lemma_groups_scan_distinct(sort_by(gs, group_order()));
}

} // verus!
