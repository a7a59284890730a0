use vstd::prelude::*;

use crate::text::{
    chars_of, decimal_string, decimal_text, decimal_value, is_isize_text, is_word, lemma_decimal_round_trip,
    lemma_split_four, lemma_trim_untouched, parse_decimal, pieces, split_bounds, split_on,
    string_of, trim, trim_bounds,
};

use vstd::string::StringExecFns;

verus! {

/// A newsgroup as a server lists it.
#[derive(Debug, Clone, PartialEq, Eq)]
pub struct NewsGroup {
    pub name: String,
    pub high: isize,
    pub low: isize,
    pub number: isize,
    pub status: String,
}

/// The space-separated fields of a reply line, once line ends and outer
/// spaces are trimmed.
pub open spec fn fields(line: Seq<char>) -> Seq<Seq<char>> {
    split_on(trim(line, true), ' ')
}

/// A `LIST` line: `name high low status`, whose mark difference fits.
pub open spec fn is_list_line(line: Seq<char>) -> bool {
    let f = fields(line);
    &&& f.len() >= 4
    &&& is_isize_text(f[1])
    &&& is_isize_text(f[2])
    &&& isize::MIN <= decimal_value(f[1]) - decimal_value(f[2]) <= isize::MAX
}

/// A `GROUP` reply: `count low high name`.
pub open spec fn is_group_line(line: Seq<char>) -> bool {
    let f = fields(line);
    &&& f.len() >= 4
    &&& is_isize_text(f[0])
    &&& is_isize_text(f[1])
    &&& is_isize_text(f[2])
}

impl NewsGroup {
    /// The group that a `LIST` line describes.
    pub open spec fn listed(self, line: Seq<char>) -> bool {
        let f = fields(line);
        &&& self.name@ == f[0]
        &&& self.high == decimal_value(f[1])
        &&& self.low == decimal_value(f[2])
        &&& self.number == self.high - self.low
        &&& self.status@ == f[3]
    }

    /// The group that a `GROUP` reply describes.
    pub open spec fn selected(self, line: Seq<char>) -> bool {
        let f = fields(line);
        &&& self.number == decimal_value(f[0])
        &&& self.low == decimal_value(f[1])
        &&& self.high == decimal_value(f[2])
        &&& self.name@ == f[3]
        &&& self.status@ == Seq::<char>::empty()
    }

    /// The group as shown to a reader: its name and, in parentheses, the
    /// difference of its high and low marks.
    pub open spec fn description(self) -> Seq<char> {
        self.name@ + " ("@ + decimal_text(self.high - self.low) + ")"@
    }

    /// The group as shown to a reader: `name (high - low)`; the difference is
    /// taken on 128 bits, where it always fits.
    pub fn describe(&self) -> (r: String)
        ensures
            r@ == self.description(),
    {
        let mut s = self.name.clone();
        s.append(" (");
        let d = decimal_string(self.high as i128 - self.low as i128);
        s.append(d.as_str());
        s.append(")");
        s
    }

    /// Reads a `LIST` line, or gives `None` where it is not one.
    pub fn parse_list_line(group: &str) -> (r: Option<NewsGroup>)
        ensures
            r is Some <==> is_list_line(group@),
            r is Some ==> r->0.listed(group@),
    {
        let cs = chars_of(group);
        let (lo, hi) = trim_bounds(&cs, 0, cs.len(), true);
        assert(cs@.subrange(0, cs@.len() as int) =~= group@);
        let parts = split_bounds(&cs, lo, hi, ' ');
        let ghost f = fields(group@);
        assert(pieces(cs@, parts@) == f);
        if parts.len() < 4 {
            return None;
        }
        assert(f[1] == cs@.subrange(parts@[1].0 as int, parts@[1].1 as int));
        assert(f[2] == cs@.subrange(parts@[2].0 as int, parts@[2].1 as int));
        let high = match parse_decimal(&cs, parts[1].0, parts[1].1) {
            Some(v) => v,
            None => return None,
        };
        let low = match parse_decimal(&cs, parts[2].0, parts[2].1) {
            Some(v) => v,
            None => return None,
        };
        let number = match high.checked_sub(low) {
            Some(v) => v,
            None => return None,
        };
        let name = string_of(&cs, parts[0].0, parts[0].1);
        let status = string_of(&cs, parts[3].0, parts[3].1);
        assert(f[0] == cs@.subrange(parts@[0].0 as int, parts@[0].1 as int));
        assert(f[3] == cs@.subrange(parts@[3].0 as int, parts@[3].1 as int));
        Some(NewsGroup { name, high, low, number, status })
    }

    /// Reads a `LIST` line: `name high low status`, the count being `high - low`.
    pub fn from_list_response(group: &str) -> (r: NewsGroup)
        requires
            is_list_line(group@),
        ensures
            r.listed(group@),
    {
        match NewsGroup::parse_list_line(group) {
            Some(g) => g,
            None => vstd::pervasive::unreached(),
        }
    }

    /// Reads a `GROUP` reply, or gives `None` where it is not one.
    pub fn parse_group_line(group: &str) -> (r: Option<NewsGroup>)
        ensures
            r is Some <==> is_group_line(group@),
            r is Some ==> r->0.selected(group@),
    {
        let cs = chars_of(group);
        let (lo, hi) = trim_bounds(&cs, 0, cs.len(), true);
        assert(cs@.subrange(0, cs@.len() as int) =~= group@);
        let parts = split_bounds(&cs, lo, hi, ' ');
        let ghost f = fields(group@);
        assert(pieces(cs@, parts@) == f);
        if parts.len() < 4 {
            return None;
        }
        assert(f[0] == cs@.subrange(parts@[0].0 as int, parts@[0].1 as int));
        assert(f[1] == cs@.subrange(parts@[1].0 as int, parts@[1].1 as int));
        assert(f[2] == cs@.subrange(parts@[2].0 as int, parts@[2].1 as int));
        assert(f[3] == cs@.subrange(parts@[3].0 as int, parts@[3].1 as int));
        let number = match parse_decimal(&cs, parts[0].0, parts[0].1) {
            Some(v) => v,
            None => return None,
        };
        let low = match parse_decimal(&cs, parts[1].0, parts[1].1) {
            Some(v) => v,
            None => return None,
        };
        let high = match parse_decimal(&cs, parts[2].0, parts[2].1) {
            Some(v) => v,
            None => return None,
        };
        let name = string_of(&cs, parts[3].0, parts[3].1);
        Some(NewsGroup { name, high, low, number, status: String::new() })
    }

    /// Reads the arguments of a `GROUP` reply: `count low high name`; the
    /// status is empty.
    pub fn from_group_response(group: &str) -> (r: NewsGroup)
        requires
            is_group_line(group@),
        ensures
            r.selected(group@),
    {
        match NewsGroup::parse_group_line(group) {
            Some(g) => g,
            None => vstd::pervasive::unreached(),
        }
    }

}

/// The text of a `LIST` line for the given fields.
pub open spec fn list_line_text(name: Seq<char>, high: int, low: int, status: Seq<char>) -> Seq<char> {
    name + seq![' '] + decimal_text(high) + seq![' '] + decimal_text(low) + seq![' '] + status
}

/// The text of a `GROUP` reply for the given fields.
pub open spec fn group_line_text(count: int, low: int, high: int, name: Seq<char>) -> Seq<char> {
    decimal_text(count) + seq![' '] + decimal_text(low) + seq![' '] + decimal_text(high) + seq![' ']
        + name
}

proof fn lemma_four_fields(a: Seq<char>, b: Seq<char>, c: Seq<char>, d: Seq<char>)
    requires
        is_word(a),
        is_word(b),
        is_word(c),
        is_word(d),
    ensures
        fields(a + seq![' '] + b + seq![' '] + c + seq![' '] + d) == seq![a, b, c, d],
{
    let s = a + seq![' '] + b + seq![' '] + c + seq![' '] + d;
    assert(s[0] == a[0]);
    assert(s.last() == d.last());
    lemma_trim_untouched(s, true);
    lemma_split_four(a, b, c, d, ' ');
}

/// A `LIST` line written from a name, two marks and a status is read back
/// as exactly that group, its count being `high - low`.
pub proof fn lemma_list_round_trip(name: Seq<char>, high: int, low: int, status: Seq<char>)
    requires
        is_word(name),
        is_word(status),
        isize::MIN <= high <= isize::MAX,
        isize::MIN <= low <= isize::MAX,
        isize::MIN <= high - low <= isize::MAX,
    ensures
        is_list_line(list_line_text(name, high, low, status)),
        forall|g: NewsGroup| #[trigger] g.listed(list_line_text(name, high, low, status)) ==> {
            &&& g.name@ == name
            &&& g.high == high
            &&& g.low == low
            &&& g.number == high - low
            &&& g.status@ == status
        },
{
    lemma_decimal_round_trip(high);
    lemma_decimal_round_trip(low);
    lemma_four_fields(name, decimal_text(high), decimal_text(low), status);
}

/// A `GROUP` reply written from a count, two marks and a name is read back as
/// exactly that group, with an empty status.
pub proof fn lemma_group_round_trip(count: int, low: int, high: int, name: Seq<char>)
    requires
        is_word(name),
        isize::MIN <= count <= isize::MAX,
        isize::MIN <= low <= isize::MAX,
        isize::MIN <= high <= isize::MAX,
    ensures
        is_group_line(group_line_text(count, low, high, name)),
        forall|g: NewsGroup| #[trigger] g.selected(group_line_text(count, low, high, name)) ==> {
            &&& g.number == count
            &&& g.low == low
            &&& g.high == high
            &&& g.name@ == name
            &&& g.status@ == Seq::<char>::empty()
        },
{
    lemma_decimal_round_trip(count);
    lemma_decimal_round_trip(low);
    lemma_decimal_round_trip(high);
    lemma_four_fields(decimal_text(count), decimal_text(low), decimal_text(high), name);
}

/// An article: its headers, each name once, and its body lines as received.
#[derive(Debug, Clone, PartialEq, Eq)]
pub struct Article {
    pub headers: Vec<(String, String)>,
    pub body: Vec<String>,
}

/// The map that a list of header pairs stands for; a later pair wins.
pub open spec fn pairs_map(v: Seq<(String, String)>) -> Map<Seq<char>, Seq<char>>
    decreases v.len(),
{
    if v.len() == 0 {
        Map::empty()
    } else {
        pairs_map(v.drop_last()).insert(v.last().0@, v.last().1@)
    }
}

/// No header name occurs twice.
pub open spec fn names_unique(v: Seq<(String, String)>) -> bool {
    forall|i: int, j: int| 0 <= i < j < v.len() ==> (#[trigger] v[i]).0@ != (#[trigger] v[j]).0@
}

/// The blank line that ends the headers.
pub open spec fn is_blank(line: Seq<char>) -> bool {
    line == seq!['\r', '\n']
}

/// Where the first `:` of a line stands, or the line's length if none.
pub open spec fn colon_at(line: Seq<char>) -> int
    decreases line.len(),
{
    if line.len() == 0 {
        0
    } else if line[0] == ':' {
        0
    } else {
        1 + colon_at(line.drop_first())
    }
}

/// A header line's name: what precedes the first `:`, line ends trimmed.
pub open spec fn header_name(line: Seq<char>) -> Seq<char> {
    trim(line.take(colon_at(line)), false)
}

/// A header line's value: what follows the first `:`, spaces and line ends
/// trimmed; empty where the line holds no `:`.
pub open spec fn header_value(line: Seq<char>) -> Seq<char> {
    if colon_at(line) < line.len() {
        trim(line.skip(colon_at(line) + 1), true)
    } else {
        Seq::empty()
    }
}

/// The index of the first blank line, or the number of lines if none.
pub open spec fn blank_at(lines: Seq<Seq<char>>) -> int
    decreases lines.len(),
{
    if lines.len() == 0 {
        0
    } else if is_blank(lines[0]) {
        0
    } else {
        1 + blank_at(lines.drop_first())
    }
}

/// The headers that the given header lines define; a later name wins.
pub open spec fn header_map(lines: Seq<Seq<char>>) -> Map<Seq<char>, Seq<char>>
    decreases lines.len(),
{
    if lines.len() == 0 {
        Map::empty()
    } else {
        header_map(lines.drop_last()).insert(header_name(lines.last()), header_value(lines.last()))
    }
}

/// The headers of an article made of `lines`: those before the first blank line.
pub open spec fn article_headers(lines: Seq<Seq<char>>) -> Map<Seq<char>, Seq<char>> {
    header_map(lines.take(blank_at(lines)))
}

/// The body of an article made of `lines`: every line after the first blank line.
pub open spec fn article_body(lines: Seq<Seq<char>>) -> Seq<Seq<char>> {
    if blank_at(lines) < lines.len() {
        lines.skip(blank_at(lines) + 1)
    } else {
        Seq::empty()
    }
}

/// The views of a list of strings.
pub open spec fn views(v: Seq<String>) -> Seq<Seq<char>> {
    v.map_values(|s: String| s@)
}

proof fn lemma_pairs_map_update(v: Seq<(String, String)>, k: int, p: (String, String))
    requires
        names_unique(v),
        0 <= k < v.len(),
        v[k].0@ == p.0@,
    ensures
        pairs_map(v.update(k, p)) == pairs_map(v).insert(p.0@, p.1@),
        names_unique(v.update(k, p)),
    decreases v.len(),
{
    let u = v.update(k, p);
    assert(u.drop_last() =~= if k == v.len() - 1 { v.drop_last() } else { v.drop_last().update(k, p) });
    if k < v.len() - 1 {
        lemma_pairs_map_update(v.drop_last(), k, p);
        assert(v[k].0@ != v.last().0@);
        assert(pairs_map(u) =~= pairs_map(v).insert(p.0@, p.1@));
    } else {
        assert(pairs_map(u) =~= pairs_map(v).insert(p.0@, p.1@));
    }
}

proof fn lemma_pairs_map_has(v: Seq<(String, String)>, name: Seq<char>)
    ensures
        pairs_map(v).contains_key(name) <==> exists|i: int| 0 <= i < v.len() && (#[trigger] v[i]).0@ == name,
    decreases v.len(),
{
    if v.len() > 0 {
        lemma_pairs_map_has(v.drop_last(), name);
        if pairs_map(v).contains_key(name) && v.last().0@ != name {
            let i = choose|i: int| 0 <= i < v.len() - 1 && (#[trigger] v.drop_last()[i]).0@ == name;
            assert(v[i] == v.drop_last()[i]);
        }
        if exists|i: int| 0 <= i < v.len() && (#[trigger] v[i]).0@ == name {
            let i = choose|i: int| 0 <= i < v.len() && (#[trigger] v[i]).0@ == name;
            if i < v.len() - 1 {
                assert(v.drop_last()[i] == v[i]);
            }
        }
    }
}

/// Where a line's first `:` stands, or its length if none.
fn find_colon(cs: &Vec<char>) -> (r: usize)
    ensures
        r == colon_at(cs@),
{
    let mut i: usize = 0;
    assert(cs@.skip(0) =~= cs@);
    while i < cs.len() && cs[i] != ':'
        invariant
            i <= cs@.len(),
            colon_at(cs@) == i + colon_at(cs@.skip(i as int)),
        decreases cs@.len() - i,
    {
        assert(cs@.skip(i as int).drop_first() =~= cs@.skip(i + 1));
        i = i + 1;
    }
    i
}

/// Splits a header line into its name and value.
pub fn split_header(line: &str) -> (r: (String, String))
    ensures
        r.0@ == header_name(line@),
        r.1@ == header_value(line@),
{
    let cs = chars_of(line);
    let c = find_colon(&cs);
    proof {
        lemma_colon_bound(cs@);
    }
    let (n0, n1) = trim_bounds(&cs, 0, c, false);
    assert(cs@.subrange(0, c as int) =~= cs@.take(c as int));
    let name = string_of(&cs, n0, n1);
    if c < cs.len() {
        let (v0, v1) = trim_bounds(&cs, c + 1, cs.len(), true);
        assert(cs@.subrange(c + 1, cs@.len() as int) =~= cs@.skip(c + 1));
        (name, string_of(&cs, v0, v1))
    } else {
        (name, String::new())
    }
}

proof fn lemma_colon_bound(s: Seq<char>)
    ensures
        0 <= colon_at(s) <= s.len(),
    decreases s.len(),
{
    if s.len() > 0 {
        lemma_colon_bound(s.drop_first());
    }
}

/// Sets header `name` to `value` in a list of unique names: replaced in
/// place where present, else appended.
fn set_header(headers: &mut Vec<(String, String)>, name: String, value: String)
    requires
        names_unique(old(headers)@),
    ensures
        names_unique(final(headers)@),
        pairs_map(final(headers)@) == pairs_map(old(headers)@).insert(name@, value@),
{
    let mut i: usize = 0;
    while i < headers.len()
        invariant
            i <= headers@.len(),
            headers@ == old(headers)@,
            names_unique(headers@),
            forall|j: int| 0 <= j < i ==> (#[trigger] headers@[j]).0@ != name@,
        decreases headers@.len() - i,
    {
        if headers[i].0 == name {
            proof {
                lemma_pairs_map_update(headers@, i as int, (name, value));
            }
            headers.set(i, (name, value));
            return;
        }
        i = i + 1;
    }
    let ghost before = headers@;
    proof {
        lemma_pairs_map_has(before, name@);
    }
    headers.push((name, value));
    assert(headers@.drop_last() =~= before);
}

impl Article {
    /// The headers as a map from name to value.
    pub open spec fn header_view(self) -> Map<Seq<char>, Seq<char>> {
        pairs_map(self.headers@)
    }

    /// Builds an article from its raw lines: header lines up to the first
    /// blank line, each split at its first `:`, and every line after it as
    /// body, kept as received.
    pub fn new_article(lines: Vec<String>) -> (r: Article)
        ensures
            names_unique(r.headers@),
            r.header_view() == article_headers(views(lines@)),
            views(r.body@) == article_body(views(lines@)),
    {
        let ghost ls = views(lines@);
        let mut headers: Vec<(String, String)> = Vec::new();
        let mut body: Vec<String> = Vec::new();
        let mut parsing_headers = true;
        let mut i: usize = 0;
        proof {
            lemma_blank_bound(ls);
            assert(ls.take(0) =~= Seq::<Seq<char>>::empty());
        }
        while i < lines.len()
            invariant
                i <= lines@.len(),
                ls == views(lines@),
                names_unique(headers@),
                parsing_headers ==> blank_at(ls) >= i,
                parsing_headers ==> pairs_map(headers@) == header_map(ls.take(i as int)),
                parsing_headers ==> body@.len() == 0,
                !parsing_headers ==> blank_at(ls) < i,
                !parsing_headers ==> pairs_map(headers@) == header_map(ls.take(blank_at(ls))),
                !parsing_headers ==> views(body@) == ls.subrange(blank_at(ls) + 1, i as int),
            decreases lines@.len() - i,
        {
            let line = &lines[i];
            proof {
                lemma_blank_bound(ls);
                if parsing_headers {
                    lemma_blank_at(ls, i as int);
                }
            }
            if parsing_headers && is_blank_line(line) {
                parsing_headers = false;
                assert(ls.subrange(blank_at(ls) + 1, i + 1) =~= Seq::<Seq<char>>::empty());
            } else if parsing_headers {
                let (name, value) = split_header(line.as_str());
                set_header(&mut headers, name, value);
                assert(ls.take(i + 1).drop_last() =~= ls.take(i as int));
            } else {
                body.push(line.clone());
                assert(views(body@) =~= ls.subrange(blank_at(ls) + 1, i + 1));
            }
            i = i + 1;
        }
        proof {
            if parsing_headers {
                assert(ls.take(i as int) =~= ls);
                lemma_blank_at(ls, ls.len() as int);
            } else {
                assert(ls.subrange(blank_at(ls) + 1, i as int) =~= ls.skip(blank_at(ls) + 1));
            }
        }
        Article { headers, body }
    }
}

fn is_blank_line(line: &String) -> (r: bool)
    ensures
        r == is_blank(line@),
{
    let cs = chars_of(line.as_str());
    let r = cs.len() == 2 && cs[0] == '\r' && cs[1] == '\n';
    proof {
        if r {
            assert(line@ =~= seq!['\r', '\n']);
        }
    }
    r
}

proof fn lemma_blank_bound(ls: Seq<Seq<char>>)
    ensures
        0 <= blank_at(ls) <= ls.len(),
    decreases ls.len(),
{
    if ls.len() > 0 {
        lemma_blank_bound(ls.drop_first());
    }
}

proof fn lemma_blank_at(ls: Seq<Seq<char>>, i: int)
    requires
        0 <= i <= ls.len(),
        blank_at(ls) >= i,
    ensures
        i < ls.len() ==> (blank_at(ls) == i <==> is_blank(ls[i])),
        i == ls.len() ==> blank_at(ls) == ls.len(),
    decreases i,
{
    lemma_blank_bound(ls);
    if ls.len() > 0 {
        lemma_blank_bound(ls.drop_first());
    }
    if i > 0 {
        lemma_blank_at(ls.drop_first(), i - 1);
        if i < ls.len() {
            assert(ls.drop_first()[i - 1] == ls[i]);
        }
    } else {
        if ls.len() == 0 {
        }
    }
}

} // verus!
