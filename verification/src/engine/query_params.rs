use vstd::prelude::*;
use crate::engine::api::{ClassifiedItem, EngineRequestPayload, EntityGroup};
use crate::error::{PiError, PiResult};

verus! {

/// The query of a request for nodes: by label, by a comma-separated list of
/// IDs, or by the time of their last write (in milliseconds).
pub struct QueryNodes {
    pub label: Option<String>,
    pub ids: Option<String>,
    pub since: Option<i64>,
}

/// The query of a request for edges written after a time.
pub struct QueryEdges {
    pub since: Option<i64>,
}

/// The query of a request for classifications, by relevance.
pub struct QueryClassifications {
    pub is_relevant: Option<bool>,
}

/// The query of a request for entities, by the name of their kind.
pub struct QueryEntities {
    pub entity_name: Option<String>,
}

/// True when the character is an ASCII digit.
pub open spec fn is_digit(c: char) -> bool {
    '0' <= c && c <= '9'
}

/// The value of a string of decimal digits.
pub open spec fn digits_value(s: Seq<char>) -> int
    decreases s.len(),
{
    if s.len() == 0 {
        0
    } else {
        digits_value(s.drop_last()) * 10 + (s.last() as int - 48)
    }
}

/// The number that `u32::from_str` reads from a string: an optional plus
/// sign and at least one decimal digit, of a value that fits.
pub open spec fn parsed_u32(s: Seq<char>) -> Option<u32> {
    let d = digits_part(s);
    if d.len() > 0 && all_digits(d) && digits_value(d) <= u32::MAX {
        Some(digits_value(d) as u32)
    } else {
        None
    }
}

/// The text after an optional leading plus sign.
pub open spec fn digits_part(s: Seq<char>) -> Seq<char> {
    if s.len() > 0 && s[0] == '+' {
        s.drop_first()
    } else {
        s
    }
}

/// True when every character is a digit.
pub open spec fn all_digits(d: Seq<char>) -> bool {
    forall|i: int| 0 <= i < d.len() ==> is_digit(#[trigger] d[i])
}

/// The pieces of a string between commas.
pub open spec fn split_commas(s: Seq<char>) -> Seq<Seq<char>>
    decreases s.len(),
{
    if s.len() == 0 {
        seq![Seq::empty()]
    } else {
        let p = split_commas(s.drop_last());
        if s.last() == ',' {
            p.push(Seq::empty())
        } else {
            p.update(p.len() - 1, p.last().push(s.last()))
        }
    }
}

/// True when every piece between commas is a number.
pub open spec fn ids_parse(s: Seq<char>) -> bool {
    forall|i: int| 0 <= i < split_commas(s).len() ==> (#[trigger] parsed_u32(split_commas(s)[i])) is Some
}

proof fn lemma_split_nonempty(s: Seq<char>)
    ensures
        split_commas(s).len() > 0,
    decreases s.len(),
{
    if s.len() > 0 {
        lemma_split_nonempty(s.drop_last());
    }
}

proof fn lemma_digits_grow(d: Seq<char>, c: char)
    requires
        is_digit(c),
        digits_value(d) >= 0,
    ensures
        digits_value(d.push(c)) == digits_value(d) * 10 + (c as int - 48),
        digits_value(d.push(c)) >= digits_value(d),
{
    assert(d.push(c).drop_last() =~= d);
}

proof fn lemma_digits_nonneg(d: Seq<char>)
    requires
        forall|i: int| 0 <= i < d.len() ==> is_digit(#[trigger] d[i]),
    ensures
        digits_value(d) >= 0,
    decreases d.len(),
{
    if d.len() > 0 {
        assert forall|i: int| 0 <= i < d.drop_last().len() implies is_digit(#[trigger] d.drop_last()[i]) by {
            assert(d.drop_last()[i] == d[i]);
        }
        lemma_digits_nonneg(d.drop_last());
    }
}

/// The number in a piece of text, as `u32::from_str` reads it.
pub fn parse_u32(s: &Vec<char>) -> (r: Option<u32>)
    ensures
        r == parsed_u32(s@),
{
    let mut i: usize = 0;
    if s.len() > 0 && s[0] == '+' {
        i = 1;
    }
    let ghost d = digits_part(s@);
    assert(d =~= s@.subrange(i as int, s@.len() as int));
    if i == s.len() {
        return None;
    }
    let mut v: u64 = 0;
    let start = i;
    while i < s.len()
        invariant
            start <= i <= s@.len(),
            start < s@.len(),
            d == digits_part(s@),
            d == s@.subrange(start as int, s@.len() as int),
            forall|k: int| start <= k < i ==> is_digit(#[trigger] s@[k]),
            v == digits_value(s@.subrange(start as int, i as int)),
            v <= u32::MAX,
        decreases s@.len() - i,
    {
        let c = s[i];
        if !('0' <= c && c <= '9') {
            assert(!is_digit(d[i - start]));
            return None;
        }
        proof {
            let pre = s@.subrange(start as int, i as int);
            assert forall|k: int| 0 <= k < pre.len() implies is_digit(#[trigger] pre[k]) by {
                assert(pre[k] == s@[start + k]);
            }
            lemma_digits_nonneg(pre);
            assert(s@.subrange(start as int, i as int + 1) =~= pre.push(c));
            lemma_digits_grow(pre, c);
        }
        let dv: u64 = (c as u32 - 48) as u64;
        let next = v * 10 + dv;
        if next > 4294967295u64 {
            proof {
                if all_digits(d) {
                    lemma_digits_prefix_bound(d, i as int + 1 - start);
                    assert(d.subrange(0, i as int + 1 - start) =~= s@.subrange(start as int, i as int + 1));
                }
            }
            return None;
        }
        v = next;
        i = i + 1;
    }
    assert(s@.subrange(start as int, s@.len() as int) =~= d);
    Some(v as u32)
}

/// The value of a string of digits is at least that of each prefix.
proof fn lemma_digits_prefix_bound(d: Seq<char>, n: int)
    requires
        0 <= n <= d.len(),
        forall|k: int| 0 <= k < d.len() ==> is_digit(#[trigger] d[k]),
    ensures
        digits_value(d) >= digits_value(d.subrange(0, n)),
    decreases d.len() - n,
{
    if n < d.len() {
        lemma_digits_prefix_bound(d, n + 1);
        let p = d.subrange(0, n);
        assert forall|k: int| 0 <= k < p.len() implies is_digit(#[trigger] p[k]) by {
            assert(p[k] == d[k]);
        }
        lemma_digits_nonneg(p);
        assert(d.subrange(0, n + 1) =~= p.push(d[n]));
        lemma_digits_grow(p, d[n]);
    } else {
        assert(d.subrange(0, n) =~= d);
    }
}

/// The numbers in a comma-separated list, when every piece is a number.
pub fn parse_ids(s: &str) -> (r: Option<Vec<u32>>)
    ensures
        match r {
            Some(v) => ids_parse(s@) && v@.len() == split_commas(s@).len() && forall|i: int|
                0 <= i < v@.len() ==> parsed_u32(split_commas(s@)[i]) == Some(#[trigger] v@[i]),
            None => !ids_parse(s@),
        },
{
    let chars = crate::text::chars_of(s);
    let mut ids: Vec<u32> = Vec::new();
    let mut piece: Vec<char> = Vec::new();
    let mut i: usize = 0;
    proof {
        assert(chars@.subrange(0, 0) =~= Seq::<char>::empty());
    }
    while i < chars.len()
        invariant
            chars@ == s@,
            i <= chars@.len(),
            split_commas(chars@.subrange(0, i as int)).len() == ids@.len() + 1,
            piece@ == split_commas(chars@.subrange(0, i as int)).last(),
            forall|k: int| 0 <= k < ids@.len() ==> parsed_u32(split_commas(chars@.subrange(0, i as int))[k]) == Some(#[trigger] ids@[k]),
        decreases chars@.len() - i,
    {
        let c = chars[i];
        let ghost pre = chars@.subrange(0, i as int);
        proof {
            lemma_split_nonempty(pre);
            assert(chars@.subrange(0, i as int + 1).drop_last() =~= pre);
        }
        if c == ',' {
            match parse_u32(&piece) {
                Some(v) => {
                    ids.push(v);
                },
                None => {
                    proof {
                        lemma_split_pieces_stay(chars@, i as int);
                        let j = split_commas(pre).len() - 1;
                        assert(split_commas(chars@)[j] == piece@);
                        assert(parsed_u32(split_commas(s@)[j]) is None);
                    }
                    return None;
                },
            }
            piece = Vec::new();
            proof {
                let q = split_commas(chars@.subrange(0, i as int + 1));
                assert(q == split_commas(pre).push(Seq::empty()));
                assert forall|k: int| 0 <= k < ids@.len() implies parsed_u32(q[k]) == Some(#[trigger] ids@[k]) by {
                    assert(q[k] == split_commas(pre)[k]);
                }
                assert(piece@ =~= q.last());
            }
        } else {
            piece.push(c);
            proof {
                let q = split_commas(chars@.subrange(0, i as int + 1));
                let p = split_commas(pre);
                assert(q == p.update(p.len() - 1, p.last().push(c)));
                assert forall|k: int| 0 <= k < ids@.len() implies parsed_u32(q[k]) == Some(#[trigger] ids@[k]) by {
                    assert(q[k] == p[k]);
                }
            }
        }
        i = i + 1;
    }
    assert(chars@.subrange(0, chars@.len() as int) =~= chars@);
    match parse_u32(&piece) {
        Some(v) => {
            ids.push(v);
            proof {
                let q = split_commas(s@);
                assert forall|k: int| 0 <= k < q.len() implies (#[trigger] parsed_u32(q[k])) is Some by {
                    if k < ids@.len() - 1 {
                        assert(parsed_u32(q[k]) == Some(ids@[k]));
                    }
                }
            }
            Some(ids)
        },
        None => {
            proof {
                let q = split_commas(s@);
                assert(parsed_u32(q[q.len() - 1]) is None);
            }
            None
        },
    }
}

/// Once a piece is closed by a comma, it stays a piece of every longer
/// prefix, so a bad piece makes the whole list bad.
proof fn lemma_split_pieces_stay(s: Seq<char>, i: int)
    requires
        0 <= i < s.len(),
        s[i] == ',',
    ensures
        split_commas(s.subrange(0, i)).len() > 0,
        split_commas(s.subrange(0, i)).len() < split_commas(s).len(),
        forall|j: int| 0 <= j < split_commas(s.subrange(0, i)).len() ==> #[trigger] split_commas(s)[j] == split_commas(s.subrange(0, i))[j],
    decreases s.len() - i,
{
    lemma_split_nonempty(s.subrange(0, i));
    lemma_split_prefix(s, i + 1);
    assert(s.subrange(0, i + 1).drop_last() =~= s.subrange(0, i));
    assert(s.subrange(0, i + 1).last() == ',');
    assert(split_commas(s.subrange(0, i + 1)) == split_commas(s.subrange(0, i)).push(Seq::empty()));
}

/// The complete pieces of a prefix are pieces of the whole string.
proof fn lemma_split_prefix(s: Seq<char>, n: int)
    requires
        0 <= n <= s.len(),
    ensures
        split_commas(s.subrange(0, n)).len() <= split_commas(s).len(),
        forall|j: int| 0 <= j < split_commas(s.subrange(0, n)).len() - 1 ==> #[trigger] split_commas(s)[j] == split_commas(s.subrange(0, n))[j],
    decreases s.len() - n,
{
    if n == s.len() {
        assert(s.subrange(0, n) =~= s);
    } else {
        lemma_split_prefix(s, n + 1);
        let a = s.subrange(0, n);
        let b = s.subrange(0, n + 1);
        assert(b.drop_last() =~= a);
        lemma_split_nonempty(a);
    }
}

impl QueryNodes {
    /// The request that the query stands for: nodes with the label when one
    /// is given, else nodes with the listed IDs when they are given, else
    /// nodes written after `since` (zero when not given). The listed IDs must
    /// all be numbers.
    pub fn request_payload(&self) -> (r: PiResult<EngineRequestPayload>)
        requires
            self.label is None ==> match self.ids {
                Some(ids) => ids_parse(ids@),
                None => true,
            },
        ensures
            match self.label {
                Some(l) => r matches Ok(EngineRequestPayload::GetNodesWithLabel(x)) && x == l,
                None => match self.ids {
                    Some(ids) => r matches Ok(EngineRequestPayload::GetNodesWithIds(v)) && v@.len() == split_commas(ids@).len()
                        && forall|i: int| 0 <= i < v@.len() ==> parsed_u32(split_commas(ids@)[i]) == Some(#[trigger] v@[i]),
                    None => r matches Ok(EngineRequestPayload::GetAllNodes(t)) && t == match self.since {
                        Some(t) => t,
                        None => 0i64,
                    },
                },
            },
    {
        if let Some(label) = &self.label {
            return Ok(EngineRequestPayload::GetNodesWithLabel(label.clone()));
        }
        if let Some(ids) = &self.ids {
            match parse_ids(ids.as_str()) {
                Some(v) => {
                    proof {
                        lemma_split_nonempty(ids@);
                    }
                    if v.len() == 0 {
                        return Err(PiError::InternalError(String::from_str("No IDs provided")));
                    }
                    return Ok(EngineRequestPayload::GetNodesWithIds(v));
                },
                None => {
                    return Err(PiError::InternalError(String::from_str("IDs must be numbers")));
                },
            }
        }
        let since = match self.since {
            Some(t) => t,
            None => 0,
        };
        Ok(EngineRequestPayload::GetAllNodes(since))
    }
}

impl QueryEdges {
    /// The request for edges written after `since` (zero when not given).
    pub fn request_payload(&self) -> (r: EngineRequestPayload)
        ensures
            r matches EngineRequestPayload::GetAllEdges(t) && t == match self.since {
                Some(t) => t,
                None => 0i64,
            },
    {
        let since = match self.since {
            Some(t) => t,
            None => 0,
        };
        EngineRequestPayload::GetAllEdges(since)
    }
}

/// The test that an item has the given relevance.
pub open spec fn relevance_is(b: bool) -> spec_fn(ClassifiedItem) -> bool {
    |c: ClassifiedItem| c.is_relevant == b
}

/// The test that a group is of the entity kind with the given name.
pub open spec fn group_named(name: Seq<char>) -> spec_fn(EntityGroup) -> bool {
    |g: EntityGroup| g.entity_name@ == name
}

impl Clone for ClassifiedItem {
    fn clone(&self) -> (r: Self)
        ensures
            r == *self,
    {
        ClassifiedItem {
            url: self.url.clone(),
            is_relevant: self.is_relevant,
            reason: self.reason.clone(),
            insight: self.insight.clone(),
        }
    }
}

impl QueryClassifications {
    /// The classified items of the wanted relevance; all of them when no
    /// relevance is given. The order is kept.
    pub fn filter(&self, items: Vec<ClassifiedItem>) -> (r: Vec<ClassifiedItem>)
        ensures
            match self.is_relevant {
                None => r@ == items@,
                Some(b) => r@ == items@.filter(relevance_is(b)),
            },
    {
        match self.is_relevant {
            None => items,
            Some(b) => {
                let ghost p = relevance_is(b);
                let mut r: Vec<ClassifiedItem> = Vec::new();
                let mut i: usize = 0;
                while i < items.len()
                    invariant
                        p == relevance_is(b),
                        i <= items@.len(),
                        r@ == items@.subrange(0, i as int).filter(p),
                    decreases items@.len() - i,
                {
                    let x = items[i].clone();
                    proof {
                        assert(items@.subrange(0, i as int + 1) =~= items@.subrange(0, i as int).push(x));
                        crate::engine::api::lemma_filter_push(items@.subrange(0, i as int), x, p);
                    }
                    if x.is_relevant == b {
                        r.push(x);
                    }
                    i = i + 1;
                }
                assert(items@.subrange(0, items@.len() as int) =~= items@);
                r
            },
        }
    }
}

/// True when `a` holds, in order, groups with the names and texts of `b`.
pub open spec fn same_groups(a: Seq<EntityGroup>, b: Seq<EntityGroup>) -> bool {
    &&& a.len() == b.len()
    &&& forall|i: int| 0 <= i < a.len() ==> (#[trigger] a[i]).entity_name == b[i].entity_name
        && a[i].extracted_text@ == b[i].extracted_text@
}

impl QueryEntities {
    /// The groups of the entity kind with the wanted name; all of them when
    /// no name is given. The order is kept.
    pub fn filter(&self, groups: Vec<EntityGroup>) -> (r: Vec<EntityGroup>)
        ensures
            match self.entity_name {
                None => same_groups(r@, groups@),
                Some(n) => same_groups(r@, groups@.filter(group_named(n@))),
            },
    {
        let ghost all = groups@;
        match &self.entity_name {
            None => {
                assert(same_groups(groups@, all));
                groups
            },
            Some(n) => {
                let ghost p = group_named(n@);
                let mut r: Vec<EntityGroup> = Vec::new();
                let mut i: usize = 0;
                while i < groups.len()
                    invariant
                        p == group_named(n@),
                        i <= groups@.len(),
                        same_groups(r@, groups@.subrange(0, i as int).filter(p)),
                    decreases groups@.len() - i,
                {
                    let g = &groups[i];
                    proof {
                        assert(groups@.subrange(0, i as int + 1) =~= groups@.subrange(0, i as int).push(*g));
                        crate::engine::api::lemma_filter_push(groups@.subrange(0, i as int), *g, p);
                    }
                    if crate::text::str_eq(g.entity_name.as_str(), n.as_str()) {
                        let texts = g.extracted_text.clone();
                        assert(texts@ =~= g.extracted_text@);
                        let ghost before = r@;
                        r.push(EntityGroup { entity_name: g.entity_name.clone(), extracted_text: texts });
                        proof {
                            let f = groups@.subrange(0, i as int + 1).filter(p);
                            assert forall|k: int| 0 <= k < r@.len() implies (#[trigger] r@[k]).entity_name == f[k].entity_name
                                && r@[k].extracted_text@ == f[k].extracted_text@ by {
                                if k < before.len() {
                                    assert(r@[k] == before[k]);
                                }
                            }
                        }
                    }
                    i = i + 1;
                }
                assert(groups@.subrange(0, groups@.len() as int) =~= groups@);
                r
            },
        }
    }
}

} // verus!
