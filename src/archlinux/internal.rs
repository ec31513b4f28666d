use vstd::prelude::*;

use super::external;

verus! {

/// The catalog, with its mirrors grouped by country.
#[derive(Debug, PartialEq)]
pub struct ArchMirrors {
    pub cutoff: i64,
    pub last_check: String,
    pub num_checks: i64,
    pub check_frequency: i64,
    pub countries: Vec<Url>,
    pub version: i64,
}

/// One country of the catalog and its mirrors. An empty name stands for
/// the mirrors that belong to no country.
#[derive(Debug, PartialEq)]
pub struct Url {
    pub country: String,
    pub country_code: String,
    pub mirrors: Vec<Mirror>,
}

/// One mirror of a country. The fractional statistics are the bit
/// patterns of IEEE-754 double values.
#[derive(Debug, PartialEq)]
pub struct Mirror {
    pub url: String,
    pub protocol: String,
    pub last_sync: Option<String>,
    pub completion_pct: Option<u64>,
    pub delay: Option<i64>,
    pub duration_avg: Option<u64>,
    pub duration_stddev: Option<u64>,
    pub score: Option<u64>,
    pub active: bool,
    pub isos: bool,
    pub ipv4: bool,
    pub ipv6: bool,
    pub details: String,
}

pub struct ArchMirrorsView {
    pub cutoff: i64,
    pub last_check: Seq<char>,
    pub num_checks: i64,
    pub check_frequency: i64,
    pub countries: Seq<UrlView>,
    pub version: i64,
}

pub struct UrlView {
    pub country: Seq<char>,
    pub country_code: Seq<char>,
    pub mirrors: Seq<Mirror>,
}

impl View for Url {
    type V = UrlView;

    open spec fn view(&self) -> UrlView {
        UrlView { country: self.country@, country_code: self.country_code@, mirrors: self.mirrors@ }
    }
}

impl View for ArchMirrors {
    type V = ArchMirrorsView;

    open spec fn view(&self) -> ArchMirrorsView {
        ArchMirrorsView {
            cutoff: self.cutoff,
            last_check: self.last_check@,
            num_checks: self.num_checks,
            check_frequency: self.check_frequency,
            countries: self.countries@.map_values(|c: Url| c@),
            version: self.version,
        }
    }
}

/// The mirror that a feed record describes.
pub open spec fn mirror_of(u: external::Url) -> Mirror {
    Mirror {
        url: u.url,
        protocol: u.protocol,
        last_sync: u.last_sync,
        completion_pct: u.completion_pct,
        delay: u.delay,
        duration_avg: u.duration_avg,
        duration_stddev: u.duration_stddev,
        score: u.score,
        active: u.active,
        isos: u.isos,
        ipv4: u.ipv4,
        ipv6: u.ipv6,
        details: u.details,
    }
}

/// The mirrors of the records named `name`, in feed order.
pub open spec fn mirrors_named(urls: Seq<external::Url>, name: Seq<char>) -> Seq<Mirror>
    decreases urls.len(),
{
    if urls.len() == 0 {
        Seq::empty()
    } else {
        let rest = mirrors_named(urls.drop_last(), name);
        if urls.last().country@ == name {
            rest.push(mirror_of(urls.last()))
        } else {
            rest
        }
    }
}

/// The country names of the feed, each once, in order of first appearance.
pub open spec fn country_names(urls: Seq<external::Url>) -> Seq<Seq<char>>
    decreases urls.len(),
{
    if urls.len() == 0 {
        Seq::empty()
    } else {
        let prev = country_names(urls.drop_last());
        if prev.contains(urls.last().country@) {
            prev
        } else {
            prev.push(urls.last().country@)
        }
    }
}

/// The country code of the first record named `name`.
pub open spec fn first_code(urls: Seq<external::Url>, name: Seq<char>) -> Seq<char>
    decreases urls.len(),
{
    if urls.len() == 0 {
        Seq::empty()
    } else if country_names(urls.drop_last()).contains(name) {
        first_code(urls.drop_last(), name)
    } else if urls.last().country@ == name {
        urls.last().country_code@
    } else {
        Seq::empty()
    }
}

/// `cs` groups the records of `urls` by their exact country name: one
/// entry per name in order of first appearance, each with the mirrors of
/// that name in feed order and the country code of its first record.
pub open spec fn grouped(urls: Seq<external::Url>, cs: Seq<UrlView>) -> bool {
    &&& cs.map_values(|c: UrlView| c.country) == country_names(urls)
    &&& forall|i: int| 0 <= i < cs.len() ==> (#[trigger] cs[i]).mirrors == mirrors_named(urls, cs[i].country)
    &&& forall|i: int| 0 <= i < cs.len() ==> (#[trigger] cs[i]).country_code == first_code(urls, cs[i].country)
}

proof fn lemma_names_of_records(urls: Seq<external::Url>)
    ensures
        country_names(urls).no_duplicates(),
        forall|k: int| 0 <= k < urls.len() ==> country_names(urls).contains(#[trigger] urls[k].country@),
        forall|x: Seq<char>| #[trigger] country_names(urls).contains(x) ==> mirrors_named(urls, x).len() > 0,
    decreases urls.len(),
{
    if urls.len() > 0 {
        let prev = urls.drop_last();
        lemma_names_of_records(prev);
        assert forall|k: int| 0 <= k < urls.len() implies country_names(urls).contains(#[trigger] urls[k].country@) by {
            let names = country_names(prev);
            let x = urls[k].country@;
            if k < urls.len() - 1 {
                assert(prev[k] == urls[k]);
                assert(names.contains(x));
                let b = choose|b: int| 0 <= b < names.len() && names[b] == x;
                if !names.contains(urls.last().country@) {
                    assert(names.push(urls.last().country@)[b] == x);
                }
            } else if !names.contains(x) {
                assert(names.push(x)[names.len() as int] == x);
            }
        }
        assert forall|x: Seq<char>| #[trigger] country_names(urls).contains(x) implies mirrors_named(urls, x).len() > 0 by {
            if !country_names(prev).contains(x) {
                assert(x == urls.last().country@);
            }
        }
    }
}

/// Grouping is by exact name equality: every name of the feed, the empty
/// one included, is one country, named once, with at least one mirror.
pub proof fn law_grouping_by_exact_name(urls: Seq<external::Url>, cs: Seq<UrlView>)
    requires
        grouped(urls, cs),
    ensures
        forall|i: int, j: int| 0 <= i < j < cs.len() ==> (#[trigger] cs[i]).country != (#[trigger] cs[j]).country,
        forall|k: int| 0 <= k < urls.len() ==> cs.map_values(|c: UrlView| c.country).contains(#[trigger] urls[k].country@),
        forall|i: int| 0 <= i < cs.len() ==> (#[trigger] cs[i]).mirrors.len() > 0,
{
    lemma_names_of_records(urls);
    let names = cs.map_values(|c: UrlView| c.country);
    assert forall|i: int, j: int| 0 <= i < j < cs.len() implies (#[trigger] cs[i]).country != (#[trigger] cs[j]).country by {
        assert(names[i] == cs[i].country && names[j] == cs[j].country);
    }
    assert forall|i: int| 0 <= i < cs.len() implies (#[trigger] cs[i]).mirrors.len() > 0 by {
        assert(names[i] == cs[i].country);
        assert(names.contains(cs[i].country));
    }
}

impl Clone for Mirror {
    fn clone(&self) -> (r: Self)
        ensures
            r == *self,
    {
        Mirror {
            url: self.url.clone(),
            protocol: self.protocol.clone(),
            last_sync: match &self.last_sync {
                Some(s) => Some(s.clone()),
                None => None,
            },
            completion_pct: self.completion_pct,
            delay: self.delay,
            duration_avg: self.duration_avg,
            duration_stddev: self.duration_stddev,
            score: self.score,
            active: self.active,
            isos: self.isos,
            ipv4: self.ipv4,
            ipv6: self.ipv6,
            details: self.details.clone(),
        }
    }
}

impl Clone for Url {
    fn clone(&self) -> (r: Self)
        ensures
            r@ == self@,
    {
        let mirrors = self.mirrors.clone();
        assert(mirrors@ =~= self.mirrors@);
        Url { country: self.country.clone(), country_code: self.country_code.clone(), mirrors }
    }
}

impl Clone for ArchMirrors {
    fn clone(&self) -> (r: Self)
        ensures
            r@ == self@,
    {
        let countries = self.countries.clone();
        assert(countries@.map_values(|c: Url| c@) =~= self.countries@.map_values(|c: Url| c@));
        ArchMirrors {
            cutoff: self.cutoff,
            last_check: self.last_check.clone(),
            num_checks: self.num_checks,
            check_frequency: self.check_frequency,
            countries,
            version: self.version,
        }
    }
}

impl Default for Url {
    fn default() -> (r: Self)
        ensures
            r@.country.len() == 0,
            r@.country_code.len() == 0,
            r@.mirrors.len() == 0,
    {
        Url { country: String::new(), country_code: String::new(), mirrors: Vec::new() }
    }
}

impl Default for ArchMirrors {
    fn default() -> (r: Self)
        ensures
            r@.cutoff == 0,
            r@.last_check.len() == 0,
            r@.num_checks == 0,
            r@.check_frequency == 0,
            r@.countries.len() == 0,
            r@.version == 0,
    {
        ArchMirrors {
            cutoff: 0,
            last_check: String::new(),
            num_checks: 0,
            check_frequency: 0,
            countries: Vec::new(),
            version: 0,
        }
    }
}

fn mirror_from(u: &external::Url) -> (r: Mirror)
    ensures
        r == mirror_of(*u),
{
    Mirror {
        url: u.url.clone(),
        protocol: u.protocol.clone(),
        last_sync: match &u.last_sync {
            Some(s) => Some(s.clone()),
            None => None,
        },
        completion_pct: u.completion_pct,
        delay: u.delay,
        duration_avg: u.duration_avg,
        duration_stddev: u.duration_stddev,
        score: u.score,
        active: u.active,
        isos: u.isos,
        ipv4: u.ipv4,
        ipv6: u.ipv6,
        details: u.details.clone(),
    }
}

fn position_of(names: &Vec<String>, name: &String) -> (r: Option<usize>)
    ensures
        match r {
            Some(a) => a < names@.len() && names@[a as int]@ == name@,
            None => forall|b: int| 0 <= b < names@.len() ==> (#[trigger] names@[b])@ != name@,
        },
{
    let mut a: usize = 0;
    while a < names.len()
        invariant
            a <= names@.len(),
            forall|b: int| 0 <= b < a ==> (#[trigger] names@[b])@ != name@,
        decreases names.len() - a,
    {
        if names[a] == *name {
            return Some(a);
        }
        a = a + 1;
    }
    None
}

/// The mirrors of the records named `name`.
fn collect_mirrors(urls: &Vec<external::Url>, name: &String) -> (r: Vec<Mirror>)
    ensures
        r@ == mirrors_named(urls@, name@),
{
    let mut out: Vec<Mirror> = Vec::new();
    let mut k: usize = 0;
    assert(urls@.take(0).len() == 0);
    while k < urls.len()
        invariant
            k <= urls@.len(),
            out@ == mirrors_named(urls@.take(k as int), name@),
        decreases urls.len() - k,
    {
        assert(urls@.take(k + 1).drop_last() =~= urls@.take(k as int));
        assert(urls@.take(k + 1).last() == urls@[k as int]);
        if urls[k].country == *name {
            out.push(mirror_from(&urls[k]));
        }
        k = k + 1;
    }
    assert(urls@.take(k as int) =~= urls@);
    out
}

impl ArchMirrors {
    /// Groups the records of the feed by their exact country name (the
    /// empty name included). Countries come in the order in which their
    /// name first appears; each takes the country code of its first record.
    pub fn from_feed(root: external::ArchLinuxMirrors) -> (r: ArchMirrors)
        ensures
            r@.cutoff == root.cutoff,
            r@.last_check == root.last_check@,
            r@.num_checks == root.num_checks,
            r@.check_frequency == root.check_frequency,
            r@.version == root.version,
            grouped(root.urls@, r@.countries),
    {
        let urls = &root.urls;
        let n = urls.len();
        let mut names: Vec<String> = Vec::new();
        let mut codes: Vec<String> = Vec::new();
        let mut i: usize = 0;
        assert(names@.map_values(|s: String| s@) =~= country_names(urls@.take(0)));
        while i < n
            invariant
                n == urls@.len(),
                i <= n,
                names@.len() == codes@.len(),
                names@.map_values(|s: String| s@) == country_names(urls@.take(i as int)),
                forall|a: int| 0 <= a < names@.len() ==> (#[trigger] codes@[a])@ == first_code(urls@.take(i as int), names@[a]@),
            decreases n - i,
        {
            let ghost prev = urls@.take(i as int);
            let ghost next = urls@.take(i + 1);
            let ghost old_names = names@;
            let ghost old_codes = codes@;
            assert(next.drop_last() =~= prev);
            assert(next.last() == urls@[i as int]);
            let pos = position_of(&names, &urls[i].country);
            if pos.is_none() {
                proof {
                    if country_names(prev).contains(urls@[i as int].country@) {
                        let b = choose|b: int| 0 <= b < country_names(prev).len() && country_names(prev)[b] == urls@[i as int].country@;
                        assert(old_names.map_values(|s: String| s@)[b] == old_names[b]@);
                    }
                }
                names.push(urls[i].country.clone());
                codes.push(urls[i].country_code.clone());
                assert(names@.map_values(|s: String| s@) =~= country_names(prev).push(urls@[i as int].country@));
            } else {
                proof {
                    let p = pos.unwrap() as int;
                    assert(old_names.map_values(|s: String| s@)[p] == old_names[p]@);
                    assert(country_names(prev).contains(urls@[i as int].country@));
                }
            }
            proof {
                assert forall|a: int| 0 <= a < names@.len() implies (#[trigger] codes@[a])@ == first_code(next, names@[a]@) by {
                    if a < old_names.len() {
                        assert(old_names.map_values(|s: String| s@)[a] == old_names[a]@);
                        assert(country_names(prev).contains(old_names[a]@));
                        assert(names@[a] == old_names[a]);
                        assert(codes@[a] == old_codes[a]);
                    }
                }
            }
            i = i + 1;
        }
        assert(urls@.take(n as int) =~= urls@);
        let mut countries: Vec<Url> = Vec::new();
        let mut j: usize = 0;
        while j < names.len()
            invariant
                n == urls@.len(),
                j <= names@.len(),
                names@.len() == codes@.len(),
                countries@.len() == j,
                forall|a: int| 0 <= a < j ==> (#[trigger] countries@[a])@.country == names@[a]@
                    && countries@[a]@.country_code == codes@[a]@
                    && countries@[a]@.mirrors == mirrors_named(urls@, names@[a]@),
            decreases names.len() - j,
        {
            let mirrors = collect_mirrors(urls, &names[j]);
            countries.push(Url { country: names[j].clone(), country_code: codes[j].clone(), mirrors });
            j = j + 1;
        }
        let r = ArchMirrors {
            cutoff: root.cutoff,
            last_check: root.last_check.clone(),
            num_checks: root.num_checks,
            check_frequency: root.check_frequency,
            countries,
            version: root.version,
        };
        proof {
            let cs = r@.countries;
            assert forall|x: int| 0 <= x < cs.len() implies #[trigger] cs[x] == countries@[x]@ by {}
            assert(cs.map_values(|c: UrlView| c.country) =~= names@.map_values(|s: String| s@));
        }
        r
    }
}

} // verus!
