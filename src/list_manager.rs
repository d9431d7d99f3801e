use vstd::prelude::*;

verus! {

/// What `str::to_lowercase` makes of a string.
pub uninterp spec fn lower_of(s: Seq<char>) -> Seq<char>;

/// Relies on `str::to_lowercase`: the result depends on the characters alone.
#[verifier::external_body]
fn lowercase(s: &str) -> (r: String)
    ensures
        r@ == lower_of(s@),
{
    s.to_lowercase()
}

/// How a looked-up value is compared with the listed entries.
#[derive(Clone, Copy, Debug, PartialEq, Eq, Structural)]
pub enum MatchMode {
    /// The value must equal an entry.
    Exact,
    /// The value must equal an entry, name a host that is a listed domain or
    /// a sub-domain of one, or lie below a listed entry (the entry followed
    /// by `/`).
    Domain,
}

/// Where the entries of a list come from.
#[derive(Clone)]
pub enum ListSource {
    Inline(Vec<String>),
    File(String),
    Remote(String),
}

/// How a list is populated and matched.
#[derive(Clone)]
pub struct ListManagerConfig {
    pub source: ListSource,
    /// Seconds between scheduled refreshes; `None` for a static list.
    pub refresh_interval_secs: Option<u64>,
    pub case_sensitive: bool,
    pub match_mode: MatchMode,
}

/// The form in which values and entries are compared.
pub open spec fn normalized(case_sensitive: bool, s: Seq<char>) -> Seq<char> {
    if case_sensitive {
        s
    } else {
        lower_of(s)
    }
}

fn normalize(case_sensitive: bool, s: &str) -> (r: String)
    ensures
        r@ == normalized(case_sensitive, s@),
{
    if case_sensitive {
        s.to_owned()
    } else {
        lowercase(s)
    }
}

pub open spec fn is_scheme_char(c: char) -> bool {
    ('a' <= c && c <= 'z') || ('A' <= c && c <= 'Z') || ('0' <= c && c <= '9') || c == '+' || c
        == '-' || c == '.'
}

/// The first index at or after `i` whose character cannot be part of a URL scheme.
pub open spec fn scheme_run(s: Seq<char>, i: int) -> int
    decreases s.len() - i,
{
    if i < 0 || i >= s.len() {
        s.len() as int
    } else if is_scheme_char(s[i]) {
        scheme_run(s, i + 1)
    } else {
        i
    }
}

/// Where the part after `scheme://` starts; 0 when the value has no scheme.
pub open spec fn after_scheme(s: Seq<char>) -> int {
    let k = scheme_run(s, 0);
    if 0 < k && k + 3 <= s.len() && s[k] == ':' && s[k + 1] == '/' && s[k + 2] == '/' {
        k + 3
    } else {
        0
    }
}

pub open spec fn ends_host(c: char) -> bool {
    c == '/' || c == '?' || c == '#' || c == ':'
}

/// The first index at or after `i` that ends a host name.
pub open spec fn host_end(s: Seq<char>, i: int) -> int
    decreases s.len() - i,
{
    if i < 0 || i >= s.len() {
        s.len() as int
    } else if ends_host(s[i]) {
        i
    } else {
        host_end(s, i + 1)
    }
}

/// The host named by a URL or a bare host, with any path, port, query or
/// fragment left off.
pub open spec fn host_of(s: Seq<char>) -> Seq<char> {
    s.subrange(after_scheme(s), host_end(s, after_scheme(s)))
}

/// `host` is a listed domain or a sub-domain of one.
pub open spec fn domain_listed(items: Seq<Seq<char>>, host: Seq<char>) -> bool {
    exists|i: int|
        0 <= i < host.len() && (i == 0 || host[i - 1] == '.') && #[trigger] items.contains(
            host.subrange(i, host.len() as int),
        )
}

/// `v` is a listed entry followed by `/` and more.
pub open spec fn path_listed(items: Seq<Seq<char>>, v: Seq<char>) -> bool {
    exists|k: int| 0 < k < v.len() && v[k] == '/' && #[trigger] items.contains(v.subrange(0, k))
}

/// The text of each string, in order.
pub open spec fn texts(v: Seq<String>) -> Seq<Seq<char>> {
    v.map_values(|e: String| e@)
}

/// The characters of `s`, one by one.
fn chars_of(s: &str) -> (r: Vec<char>)
    ensures
        r@ == s@,
{
    let n = s.unicode_len();
    let mut r: Vec<char> = Vec::new();
    let mut i: usize = 0;
    while i < n
        invariant
            n == s@.len(),
            i <= n,
            r@ == s@.subrange(0, i as int),
        decreases n - i,
    {
        r.push(s.get_char(i));
        i = i + 1;
    }
    assert(r@ =~= s@);
    r
}

/// The host named by a URL or a bare host; see `host_of`.
pub fn host_text(s: &str) -> (r: String)
    ensures
        r@ == host_of(s@),
{
    let cs = chars_of(s);
    let a = scheme_prefix_len(&cs);
    let he = find_host_end(&cs, a);
    s.substring_char(a, he).to_owned()
}

/// Whether `entries` holds a string equal to `x`.
fn has_item(entries: &Vec<String>, x: &String) -> (r: bool)
    ensures
        r == texts(entries@).contains(x@),
{
    let ghost items = texts(entries@);
    let mut i: usize = 0;
    while i < entries.len()
        invariant
            items == texts(entries@),
            i <= entries@.len(),
            forall|j: int| 0 <= j < i ==> items[j] != x@,
        decreases entries.len() - i,
    {
        if entries[i] == *x {
            assert(items[i as int] == x@);
            return true;
        }
        i = i + 1;
    }
    false
}

/// Index where the part after `scheme://` starts in `cs`.
fn scheme_prefix_len(cs: &Vec<char>) -> (r: usize)
    ensures
        r as int == after_scheme(cs@),
{
    let n = cs.len();
    let mut k: usize = 0;
    while k < n && (('a' <= cs[k] && cs[k] <= 'z') || ('A' <= cs[k] && cs[k] <= 'Z') || ('0'
        <= cs[k] && cs[k] <= '9') || cs[k] == '+' || cs[k] == '-' || cs[k] == '.')
        invariant
            n == cs@.len(),
            k <= n,
            scheme_run(cs@, 0) == scheme_run(cs@, k as int),
        decreases n - k,
    {
        k = k + 1;
    }
    if 0 < k && 3 <= n - k && cs[k] == ':' && cs[k + 1] == '/' && cs[k + 2] == '/' {
        k + 3
    } else {
        0
    }
}

/// First index at or after `start` that ends a host name in `cs`.
fn find_host_end(cs: &Vec<char>, start: usize) -> (r: usize)
    requires
        start <= cs@.len(),
    ensures
        r as int == host_end(cs@, start as int),
        start <= r <= cs@.len(),
{
    let n = cs.len();
    let mut k: usize = start;
    while k < n && !(cs[k] == '/' || cs[k] == '?' || cs[k] == '#' || cs[k] == ':')
        invariant
            n == cs@.len(),
            start <= k <= n,
            host_end(cs@, start as int) == host_end(cs@, k as int),
        decreases n - k,
    {
        k = k + 1;
    }
    k
}

/// A line of a list document without its trailing carriage return, if any.
pub open spec fn without_cr(line: Seq<char>) -> Seq<char> {
    if line.len() > 0 && line[line.len() - 1] == '\r' {
        line.drop_last()
    } else {
        line
    }
}

/// The entry a line holds: none for a blank line or a `#` comment.
pub open spec fn line_entries(line: Seq<char>) -> Seq<Seq<char>> {
    let l = without_cr(line);
    if l.len() == 0 || l[0] == '#' {
        Seq::empty()
    } else {
        seq![l]
    }
}

/// The entries of `text` from the line that starts at `start`, scanning at `i`.
pub open spec fn entries_from(text: Seq<char>, start: int, i: int) -> Seq<Seq<char>>
    decreases text.len() - i,
{
    if i < start || i >= text.len() {
        line_entries(text.subrange(start, text.len() as int))
    } else if text[i] == '\n' {
        line_entries(text.subrange(start, i)) + entries_from(text, i + 1, i + 1)
    } else {
        entries_from(text, start, i + 1)
    }
}

/// The entries of a list document: one per line, in order, without blank
/// lines and `#` comments.
pub open spec fn parsed_entries(text: Seq<char>) -> Seq<Seq<char>> {
    entries_from(text, 0, 0)
}

/// Appends the entry of the line `cs[start..end]`, if it holds one.
fn push_line(text: &str, cs: &Vec<char>, start: usize, end: usize, out: &mut Vec<String>)
    requires
        cs@ == text@,
        start <= end <= cs@.len(),
    ensures
        texts(final(out)@) == texts(old(out)@) + line_entries(text@.subrange(start as int, end as int)),
{
    let ghost line = text@.subrange(start as int, end as int);
    let mut stop = end;
    if stop > start && cs[stop - 1] == '\r' {
        stop = stop - 1;
    }
    assert(without_cr(line) =~= text@.subrange(start as int, stop as int));
    if stop > start && cs[start] != '#' {
        let entry = text.substring_char(start, stop).to_owned();
        let ghost before = out@;
        out.push(entry);
        assert(texts(out@) =~= texts(before) + line_entries(line));
    } else {
        assert(texts(out@) =~= texts(out@) + line_entries(line));
    }
}

/// Reads a list document into its entries.
pub fn parse_entries(text: &str) -> (r: Vec<String>)
    ensures
        texts(r@) == parsed_entries(text@),
{
    let cs = chars_of(text);
    let n = cs.len();
    let mut out: Vec<String> = Vec::new();
    let mut start: usize = 0;
    let mut i: usize = 0;
    assert(texts(out@) + entries_from(text@, 0, 0) =~= parsed_entries(text@));
    while i < n
        invariant
            cs@ == text@,
            n == cs@.len(),
            start <= i <= n,
            texts(out@) + entries_from(text@, start as int, i as int) == parsed_entries(text@),
        decreases n - i,
    {
        if cs[i] == '\n' {
            let ghost before = texts(out@);
            push_line(text, &cs, start, i, &mut out);
            assert(before + entries_from(text@, start as int, i as int) =~= texts(out@)
                + entries_from(text@, i + 1, i + 1));
            start = i + 1;
        }
        i = i + 1;
    }
    let ghost before = texts(out@);
    push_line(text, &cs, start, n, &mut out);
    assert(before + entries_from(text@, start as int, n as int) =~= texts(out@));
    out
}

/// An immutable set of entries, already in the form in which they are compared.
///
/// The entries sit in a `Vec` searched in order: vstd specifies hash sets only
/// for integer and boolean keys, so a `HashSet<String>` would leave lookups
/// without a provable meaning.
#[derive(Clone)]
pub struct Snapshot {
    entries: Vec<String>,
    case_sensitive: bool,
    match_mode: MatchMode,
}

impl Snapshot {
    pub closed spec fn items(&self) -> Seq<Seq<char>> {
        texts(self.entries@)
    }

    pub closed spec fn spec_case_sensitive(&self) -> bool {
        self.case_sensitive
    }

    pub closed spec fn spec_match_mode(&self) -> MatchMode {
        self.match_mode
    }

    /// Each entry is held once.
    pub open spec fn wf(&self) -> bool {
        self.items().no_duplicates()
    }

    /// The entries are exactly the normalized forms of `raw`.
    pub open spec fn holds_exactly(&self, raw: Seq<Seq<char>>) -> bool {
        forall|x: Seq<char>|
            self.items().contains(x) <==> exists|i: int|
                0 <= i < raw.len() && x == #[trigger] normalized(self.spec_case_sensitive(), raw[i])
    }

    pub open spec fn spec_contains(&self, value: Seq<char>) -> bool {
        let v = normalized(self.spec_case_sensitive(), value);
        match self.spec_match_mode() {
            MatchMode::Exact => self.items().contains(v),
            MatchMode::Domain => self.items().contains(v) || domain_listed(self.items(), host_of(v))
                || path_listed(self.items(), v),
        }
    }

    /// A snapshot of the normalized forms of `raw`, each held once.
    pub fn build(raw: &Vec<String>, case_sensitive: bool, match_mode: MatchMode) -> (r: Snapshot)
        ensures
            r.wf(),
            r.spec_case_sensitive() == case_sensitive,
            r.spec_match_mode() == match_mode,
            r.holds_exactly(texts(raw@)),
    {
        let ghost rv = texts(raw@);
        let mut entries: Vec<String> = Vec::new();
        let mut k: usize = 0;
        while k < raw.len()
            invariant
                rv == texts(raw@),
                k <= raw@.len(),
                texts(entries@).no_duplicates(),
                forall|x: Seq<char>|
                    #[trigger] texts(entries@).contains(x) <==> exists|i: int|
                        0 <= i < k && x == #[trigger] normalized(case_sensitive, rv[i]),
            decreases raw.len() - k,
        {
            let e = normalize(case_sensitive, raw[k].as_str());
            let ghost before = texts(entries@);
            assert(rv[k as int] == raw@[k as int]@);
            if !has_item(&entries, &e) {
                entries.push(e);
                proof {
                    let after = texts(entries@);
                    assert(after =~= before.push(e@));
                    assert forall|x: Seq<char>| after.contains(x) <==> exists|i: int|
                        0 <= i < k + 1 && x == #[trigger] normalized(case_sensitive, rv[i]) by {
                        if after.contains(x) {
                            let j = choose|j: int| 0 <= j < after.len() && after[j] == x;
                            if j < before.len() {
                                assert(before.contains(x));
                            }
                        }
                        if exists|i: int| 0 <= i < k + 1 && x == #[trigger] normalized(case_sensitive, rv[i]) {
                            let i = choose|i: int| 0 <= i < k + 1 && x == #[trigger] normalized(case_sensitive, rv[i]);
                            if i < k {
                                assert(before.contains(x));
                                let j = choose|j: int| 0 <= j < before.len() && before[j] == x;
                                assert(after[j] == x);
                            } else {
                                assert(after[before.len() as int] == x);
                            }
                        }
                    }
                }
            } else {
                proof {
                    assert forall|x: Seq<char>| before.contains(x) <==> exists|i: int|
                        0 <= i < k + 1 && x == #[trigger] normalized(case_sensitive, rv[i]) by {
                        if exists|i: int| 0 <= i < k + 1 && x == #[trigger] normalized(case_sensitive, rv[i]) {
                            let i = choose|i: int| 0 <= i < k + 1 && x == #[trigger] normalized(case_sensitive, rv[i]);
                            if i == k {
                                assert(x == e@);
                            }
                        }
                    }
                }
            }
            k = k + 1;
        }
        Snapshot { entries, case_sensitive, match_mode }
    }

    /// Whether `value` is listed, under this snapshot's case rule and match mode.
    pub fn contains(&self, value: &str) -> (r: bool)
        ensures
            r == self.spec_contains(value@),
    {
        let v = normalize(self.case_sensitive, value);
        match self.match_mode {
            MatchMode::Exact => has_item(&self.entries, &v),
            MatchMode::Domain => has_item(&self.entries, &v) || self.contains_domain(&v)
                || self.contains_path(&v),
        }
    }

    fn contains_path(&self, v: &String) -> (r: bool)
        ensures
            r == path_listed(self.items(), v@),
    {
        let cs = chars_of(v.as_str());
        let n = cs.len();
        let mut k: usize = 1;
        while k < n
            invariant
                cs@ == v@,
                n == cs@.len(),
                1 <= k,
                forall|j: int|
                    0 < j < k && j < n && v@[j] == '/' ==> !#[trigger] self.items().contains(
                        v@.subrange(0, j),
                    ),
            decreases n - k,
        {
            if cs[k] == '/' {
                let cand = v.as_str().substring_char(0, k).to_owned();
                if has_item(&self.entries, &cand) {
                    assert(self.items().contains(v@.subrange(0, k as int)));
                    return true;
                }
            }
            k = k + 1;
        }
        false
    }

    fn contains_domain(&self, v: &String) -> (r: bool)
        ensures
            r == domain_listed(self.items(), host_of(v@)),
    {
        let cs = chars_of(v.as_str());
        let a = scheme_prefix_len(&cs);
        let he = find_host_end(&cs, a);
        let ghost host = host_of(v@);
        assert(host =~= v@.subrange(a as int, he as int));
        let mut i: usize = a;
        while i < he
            invariant
                cs@ == v@,
                a <= i <= he <= cs@.len(),
                host == v@.subrange(a as int, he as int),
                host == host_of(v@),
                forall|j: int|
                    0 <= j < i - a && (j == 0 || host[j - 1] == '.') ==> !self.items().contains(
                        host.subrange(j, host.len() as int),
                    ),
            decreases he - i,
        {
            if i == a || cs[i - 1] == '.' {
                let cand = v.as_str().substring_char(i, he).to_owned();
                let ghost j = i - a;
                assert(cand@ =~= host.subrange(j, host.len() as int));
                if has_item(&self.entries, &cand) {
                    assert(j == 0 || host[j - 1] == '.');
                    assert(self.items().contains(host.subrange(j, host.len() as int)));
                    return true;
                }
            }
            i = i + 1;
        }
        proof {
            if domain_listed(self.items(), host) {
                let j = choose|j: int|
                    0 <= j < host.len() && (j == 0 || host[j - 1] == '.') && #[trigger] self.items().contains(
                        host.subrange(j, host.len() as int),
                    );
                assert(false);
            }
        }
        false
    }

    /// How many entries the snapshot holds.
    pub fn num_items(&self) -> (r: usize)
        ensures
            r == self.items().len(),
    {
        self.entries.len()
    }

    pub fn case_sensitive(&self) -> (r: bool)
        ensures
            r == self.spec_case_sensitive(),
    {
        self.case_sensitive
    }

    pub fn match_mode(&self) -> (r: MatchMode)
        ensures
            r == self.spec_match_mode(),
    {
        self.match_mode
    }
}


/// A loaded entry is listed. In exact mode a value is listed exactly when it
/// equals a loaded entry under the case rule; with case-sensitive matching,
/// a value that was never loaded is never listed.
pub proof fn lemma_exact_listing(s: Snapshot, raw: Seq<Seq<char>>, x: Seq<char>)
    requires
        s.holds_exactly(raw),
        s.spec_match_mode() == MatchMode::Exact,
    ensures
        raw.contains(x) ==> s.spec_contains(x),
        s.spec_contains(x) <==> exists|i: int|
            0 <= i < raw.len() && #[trigger] normalized(s.spec_case_sensitive(), raw[i])
                == normalized(s.spec_case_sensitive(), x),
        s.spec_case_sensitive() ==> (s.spec_contains(x) <==> raw.contains(x)),
{
    let cs = s.spec_case_sensitive();
    let v = normalized(cs, x);
    assert(s.items().contains(v) <==> exists|i: int|
        0 <= i < raw.len() && v == #[trigger] normalized(cs, raw[i]));
    if raw.contains(x) {
        let i = choose|i: int| 0 <= i < raw.len() && raw[i] == x;
        assert(v == normalized(cs, raw[i]));
    }
    if cs && s.spec_contains(x) {
        let i = choose|i: int| 0 <= i < raw.len() && v == #[trigger] normalized(cs, raw[i]);
        assert(raw[i] == x);
    }
}

/// Lookups depend on the entries alone: two snapshots that hold exactly the
/// same loaded list, under the same case rule and match mode, answer every
/// lookup alike.
pub proof fn lemma_answers_follow_entries(s: Snapshot, t: Snapshot, raw: Seq<Seq<char>>, x: Seq<char>)
    requires
        s.holds_exactly(raw),
        t.holds_exactly(raw),
        s.spec_case_sensitive() == t.spec_case_sensitive(),
        s.spec_match_mode() == t.spec_match_mode(),
    ensures
        s.spec_contains(x) == t.spec_contains(x),
{
    assert(forall|y: Seq<char>| #[trigger] s.items().contains(y) == t.items().contains(y));
    let h = host_of(normalized(s.spec_case_sensitive(), x));
    if domain_listed(s.items(), h) {
        let i = choose|i: int|
            0 <= i < h.len() && (i == 0 || h[i - 1] == '.') && #[trigger] s.items().contains(
                h.subrange(i, h.len() as int),
            );
        assert(t.items().contains(h.subrange(i, h.len() as int)));
    }
    if domain_listed(t.items(), h) {
        let i = choose|i: int|
            0 <= i < h.len() && (i == 0 || h[i - 1] == '.') && #[trigger] t.items().contains(
                h.subrange(i, h.len() as int),
            );
        assert(s.items().contains(h.subrange(i, h.len() as int)));
    }
    let v = normalized(s.spec_case_sensitive(), x);
    if path_listed(s.items(), v) {
        let k = choose|k: int| 0 < k < v.len() && v[k] == '/' && #[trigger] s.items().contains(v.subrange(0, k));
        assert(t.items().contains(v.subrange(0, k)));
    }
    if path_listed(t.items(), v) {
        let k = choose|k: int| 0 < k < v.len() && v[k] == '/' && #[trigger] t.items().contains(v.subrange(0, k));
        assert(s.items().contains(v.subrange(0, k)));
    }
}

/// Every loaded entry is listed, whatever the match mode and case rule.
pub proof fn lemma_loaded_entry_listed(s: Snapshot, raw: Seq<Seq<char>>, e: Seq<char>)
    requires
        s.holds_exactly(raw),
        raw.contains(e),
    ensures
        s.spec_contains(e),
{
    let i = choose|i: int| 0 <= i < raw.len() && raw[i] == e;
    assert(s.items().contains(normalized(s.spec_case_sensitive(), raw[i])));
}

/// Domain matching only adds to exact matching: of two snapshots of the same
/// list under the same case rule, what the exact one lists the domain one
/// lists too.
pub proof fn lemma_domain_extends_exact(s: Snapshot, t: Snapshot, raw: Seq<Seq<char>>, x: Seq<char>)
    requires
        s.holds_exactly(raw),
        t.holds_exactly(raw),
        s.spec_case_sensitive() == t.spec_case_sensitive(),
        s.spec_match_mode() == MatchMode::Exact,
        t.spec_match_mode() == MatchMode::Domain,
    ensures
        s.spec_contains(x) ==> t.spec_contains(x),
{
    assert(forall|y: Seq<char>| #[trigger] s.items().contains(y) == t.items().contains(y));
}

/// Under case-sensitive domain matching, a value below a listed entry (the
/// entry, `/`, then anything) is listed.
pub proof fn lemma_sub_path_listed(s: Snapshot, raw: Seq<Seq<char>>, e: Seq<char>, p: Seq<char>)
    requires
        s.holds_exactly(raw),
        s.spec_case_sensitive(),
        s.spec_match_mode() == MatchMode::Domain,
        raw.contains(e),
        e.len() > 0,
    ensures
        s.spec_contains(e + seq!['/'] + p),
{
    let v = e + seq!['/'] + p;
    let i = choose|i: int| 0 <= i < raw.len() && raw[i] == e;
    assert(s.items().contains(normalized(true, raw[i])));
    assert(v.subrange(0, e.len() as int) =~= e);
    assert(v[e.len() as int] == '/');
    assert(path_listed(s.items(), v));
}

proof fn lemma_host_end_plain(s: Seq<char>, i: int)
    requires
        0 <= i <= s.len(),
        forall|j: int| i <= j < s.len() ==> !ends_host(#[trigger] s[j]),
    ensures
        host_end(s, i) == s.len(),
    decreases s.len() - i,
{
    if i < s.len() {
        lemma_host_end_plain(s, i + 1);
    }
}

/// Under case-sensitive domain matching, a sub-domain of a listed entry (a
/// label, `.`, then the entry) is listed, when it is a bare host: no `:`,
/// `/`, `?` or `#` in it.
pub proof fn lemma_sub_domain_listed(s: Snapshot, raw: Seq<Seq<char>>, e: Seq<char>, label: Seq<char>)
    requires
        s.holds_exactly(raw),
        s.spec_case_sensitive(),
        s.spec_match_mode() == MatchMode::Domain,
        raw.contains(e),
        e.len() > 0,
        forall|j: int| 0 <= j < (label + seq!['.'] + e).len() ==> !ends_host(
            #[trigger] (label + seq!['.'] + e)[j],
        ),
    ensures
        s.spec_contains(label + seq!['.'] + e),
{
    let w = label + seq!['.'] + e;
    let i = choose|i: int| 0 <= i < raw.len() && raw[i] == e;
    assert(s.items().contains(normalized(true, raw[i])));
    let k = scheme_run(w, 0);
    if 0 < k && k + 3 <= w.len() {
        assert(!ends_host(w[k]));
    }
    assert(after_scheme(w) == 0);
    lemma_host_end_plain(w, 0);
    assert(host_of(w) =~= w);
    let d: int = label.len() as int + 1;
    assert(w[d - 1] == '.');
    assert(w.subrange(d, w.len() as int) =~= e);
    assert(domain_listed(s.items(), host_of(w)));
}

/// The list could not be loaded when it was first needed.
pub struct LoadError {
    pub message: String,
}

/// When the last refresh finished, and whether it published a new snapshot.
#[derive(Clone, Copy, Debug, PartialEq, Eq, Structural)]
pub struct RefreshRecord {
    pub at_secs: u64,
    pub succeeded: bool,
}

/// Owns the published snapshot of a list and decides when and how it is refreshed.
///
/// Fetching is the caller's part: it hands over what the list source produced.
#[derive(Clone)]
pub struct ListManager {
    config: ListManagerConfig,
    snapshot: Snapshot,
    refreshing: bool,
    last_attempt_secs: u64,
    last_refresh: Option<RefreshRecord>,
    failed_refreshes: u64,
}

impl ListManager {
    pub closed spec fn spec_snapshot(&self) -> Snapshot {
        self.snapshot
    }

    pub closed spec fn spec_refreshing(&self) -> bool {
        self.refreshing
    }

    pub closed spec fn spec_last_attempt_secs(&self) -> u64 {
        self.last_attempt_secs
    }

    pub closed spec fn spec_last_refresh(&self) -> Option<RefreshRecord> {
        self.last_refresh
    }

    pub closed spec fn spec_failed_refreshes(&self) -> u64 {
        self.failed_refreshes
    }

    pub closed spec fn spec_refresh_interval(&self) -> Option<u64> {
        self.config.refresh_interval_secs
    }

    pub closed spec fn spec_case_sensitive(&self) -> bool {
        self.config.case_sensitive
    }

    pub closed spec fn spec_source(&self) -> ListSource {
        self.config.source
    }

    pub closed spec fn spec_match_mode(&self) -> MatchMode {
        self.config.match_mode
    }

    /// The snapshot holds each entry once and matches as the configuration says.
    pub open spec fn wf(&self) -> bool {
        &&& self.spec_snapshot().wf()
        &&& self.spec_snapshot().spec_case_sensitive() == self.spec_case_sensitive()
        &&& self.spec_snapshot().spec_match_mode() == self.spec_match_mode()
    }

    pub open spec fn spec_contains(&self, value: Seq<char>) -> bool {
        self.spec_snapshot().spec_contains(value)
    }

    /// Loads the first snapshot from what the list source produced at `now_secs`.
    /// A source that could not be read fails construction.
    pub fn new(config: ListManagerConfig, fetched: Result<Vec<String>, String>, now_secs: u64) -> (r:
        Result<ListManager, LoadError>)
        ensures
            match fetched {
                Err(msg) => r matches Err(e) && e.message@ == msg@,
                Ok(raw) => r matches Ok(m) && {
                    &&& m.wf()
                    &&& m.spec_snapshot().holds_exactly(texts(raw@))
                    &&& !m.spec_refreshing()
                    &&& m.spec_last_attempt_secs() == now_secs
                    &&& m.spec_last_refresh().is_none()
                    &&& m.spec_failed_refreshes() == 0
                    &&& m.spec_case_sensitive() == config.case_sensitive
                    &&& m.spec_match_mode() == config.match_mode
                    &&& m.spec_refresh_interval() == config.refresh_interval_secs
                    &&& m.spec_source() == config.source
                },
            },
    {
        match fetched {
            Err(message) => Err(LoadError { message }),
            Ok(raw) => {
                let snapshot = Snapshot::build(&raw, config.case_sensitive, config.match_mode);
                Ok(
                    ListManager {
                        config,
                        snapshot,
                        refreshing: false,
                        last_attempt_secs: now_secs,
                        last_refresh: None,
                        failed_refreshes: 0,
                    },
                )
            },
        }
    }

    /// Whether `value` is listed in the current snapshot.
    pub fn contains(&self, value: &str) -> (r: bool)
        ensures
            r == self.spec_contains(value@),
    {
        self.snapshot.contains(value)
    }

    /// How many entries the current snapshot holds.
    pub fn num_items(&self) -> (r: usize)
        ensures
            r == self.spec_snapshot().items().len(),
    {
        self.snapshot.num_items()
    }

    /// The current snapshot.
    pub fn snapshot(&self) -> (r: &Snapshot)
        ensures
            *r == self.spec_snapshot(),
    {
        &self.snapshot
    }

    /// Where the entries come from.
    pub fn source(&self) -> (r: &ListSource)
        ensures
            *r == self.spec_source(),
    {
        &self.config.source
    }

    pub fn last_refresh(&self) -> (r: Option<RefreshRecord>)
        ensures
            r == self.spec_last_refresh(),
    {
        self.last_refresh
    }

    pub fn failed_refreshes(&self) -> (r: u64)
        ensures
            r == self.spec_failed_refreshes(),
    {
        self.failed_refreshes
    }

    /// Whether a scheduled refresh should start at `now_secs`: the list has an
    /// interval, none is in flight, and the interval has passed since the last
    /// attempt.
    pub fn refresh_due(&self, now_secs: u64) -> (r: bool)
        ensures
            r == (match self.spec_refresh_interval() {
                Some(d) => !self.spec_refreshing() && now_secs >= self.spec_last_attempt_secs()
                    + d,
                None => false,
            }),
    {
        match self.config.refresh_interval_secs {
            Some(d) => !self.refreshing && now_secs >= self.last_attempt_secs && now_secs
                - self.last_attempt_secs >= d,
            None => false,
        }
    }

    /// Claims the single refresh slot. A trigger while a refresh is in flight
    /// changes nothing and returns false.
    pub fn begin_refresh(&mut self) -> (started: bool)
        ensures
            started == !old(self).spec_refreshing(),
            final(self).spec_refreshing(),
            final(self).spec_snapshot() == old(self).spec_snapshot(),
            final(self).spec_last_attempt_secs() == old(self).spec_last_attempt_secs(),
            final(self).spec_last_refresh() == old(self).spec_last_refresh(),
            final(self).spec_failed_refreshes() == old(self).spec_failed_refreshes(),
            final(self).spec_refresh_interval() == old(self).spec_refresh_interval(),
            final(self).spec_case_sensitive() == old(self).spec_case_sensitive(),
            final(self).spec_match_mode() == old(self).spec_match_mode(),
            final(self).spec_source() == old(self).spec_source(),
    {
        if self.refreshing {
            false
        } else {
            self.refreshing = true;
            true
        }
    }

    /// Ends a refresh with what the list source produced at `now_secs`. On
    /// success the new snapshot replaces the old one whole; on failure the old
    /// one stays published, untouched, and the failure is counted.
    pub fn finish_refresh(&mut self, fetched: Result<Vec<String>, String>, now_secs: u64) -> (published: bool)
        requires
            old(self).wf(),
        ensures
            final(self).wf(),
            published == fetched is Ok,
            !final(self).spec_refreshing(),
            final(self).spec_last_attempt_secs() == now_secs,
            final(self).spec_last_refresh() == Some(
                RefreshRecord { at_secs: now_secs, succeeded: published },
            ),
            match fetched {
                Ok(raw) => {
                    &&& final(self).spec_snapshot().holds_exactly(texts(raw@))
                    &&& final(self).spec_failed_refreshes() == old(self).spec_failed_refreshes()
                },
                Err(_) => {
                    &&& final(self).spec_snapshot() == old(self).spec_snapshot()
                    &&& final(self).spec_failed_refreshes() == if old(self).spec_failed_refreshes()
                        < u64::MAX {
                        (old(self).spec_failed_refreshes() + 1) as u64
                    } else {
                        old(self).spec_failed_refreshes()
                    }
                },
            },
            final(self).spec_refresh_interval() == old(self).spec_refresh_interval(),
            final(self).spec_case_sensitive() == old(self).spec_case_sensitive(),
            final(self).spec_match_mode() == old(self).spec_match_mode(),
            final(self).spec_source() == old(self).spec_source(),
    {
        let published = match fetched {
            Ok(raw) => {
                self.snapshot = Snapshot::build(&raw, self.config.case_sensitive, self.config.match_mode);
                true
            },
            Err(_) => {
                self.failed_refreshes = self.failed_refreshes.saturating_add(1);
                false
            },
        };
        self.refreshing = false;
        self.last_attempt_secs = now_secs;
        self.last_refresh = Some(RefreshRecord { at_secs: now_secs, succeeded: published });
        published
    }
}

} // verus!
