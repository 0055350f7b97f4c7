//! Lists of group manager (and opener) domains.

use vstd::prelude::*;

verus! {

/// The text that lists `domains` in order, each one followed by a comma.
pub open spec fn spec_joined(domains: Seq<String>) -> Seq<char>
    decreases domains.len(),
{
    if domains.len() == 0 {
        Seq::empty()
    } else {
        spec_joined(domains.drop_last()) + domains.last()@ + seq![',']
    }
}

/// Whether some entry of `domains` is `domain`.
pub open spec fn spec_lists(domains: Seq<String>, domain: Seq<char>) -> bool {
    exists|i: int| 0 <= i < domains.len() && #[trigger] domains[i]@ == domain
}

/// Joins a list of domains into one text, each domain followed by a comma.
fn join_with_commas(items: &[String]) -> (joined: String)
    ensures
        joined@ == spec_joined(items@),
{
    let mut joined = String::new();
    let mut i: usize = 0;
    proof {
        reveal_strlit(",");
    }
    while i < items.len()
        invariant
            i <= items@.len(),
            ","@ == seq![','],
            joined@ == spec_joined(items@.subrange(0, i as int)),
        decreases items@.len() - i,
    {
        joined.append(items[i].as_str());
        joined.append(",");
        proof {
            assert(items@.subrange(0, i + 1).drop_last() =~= items@.subrange(0, i as int));
        }
        i = i + 1;
    }
    proof {
        assert(items@.subrange(0, items@.len() as int) =~= items@);
    }
    joined
}

/// The group managers' domains as one text: each domain followed by a comma.
pub fn joined_domains(gms: &Vec<String>) -> (joined: String)
    ensures
        joined@ == spec_joined(gms@),
{
    join_with_commas(gms.as_slice())
}

/// The openers' domains as one text: each domain followed by a comma.
pub fn joined_openers(openers: &Vec<String>) -> (joined: String)
    ensures
        joined@ == spec_joined(openers@),
{
    join_with_commas(openers.as_slice())
}

/// Joining two lists one after the other gives the two joined texts one after
/// the other.
pub proof fn lemma_joined_concat(a: Seq<String>, b: Seq<String>)
    ensures
        spec_joined(a + b) == spec_joined(a) + spec_joined(b),
    decreases b.len(),
{
    if b.len() == 0 {
        assert(a + b =~= a);
        assert(spec_joined(b) =~= Seq::<char>::empty());
        assert(spec_joined(a) + spec_joined(b) =~= spec_joined(a));
    } else {
        lemma_joined_concat(a, b.drop_last());
        assert((a + b).drop_last() =~= a + b.drop_last());
        assert((a + b).last() == b.last());
        assert(spec_joined(a + b) =~= spec_joined(a) + spec_joined(b));
    }
}

/// The joined text is as long as the domains together, plus one comma for each.
pub proof fn lemma_joined_len(domains: Seq<String>)
    ensures
        spec_joined(domains).len() == domains.len() + domains.fold_left(
            0nat,
            |acc: nat, d: String| acc + d@.len(),
        ),
    decreases domains.len(),
{
    if domains.len() > 0 {
        lemma_joined_len(domains.drop_last());
    }
}

/// Whether no entry of `domains` holds a comma.
pub open spec fn spec_comma_free(domains: Seq<String>) -> bool {
    forall|i: int| 0 <= i < domains.len() ==> !(#[trigger] domains[i]@).contains(',')
}

/// The texts of the entries of `domains`.
pub open spec fn spec_texts(domains: Seq<String>) -> Seq<Seq<char>> {
    domains.map_values(|d: String| d@)
}

/// The joined text of a non-empty list ends with a comma.
proof fn lemma_joined_ends_with_comma(domains: Seq<String>)
    requires
        domains.len() > 0,
    ensures
        spec_joined(domains).len() > 0,
        spec_joined(domains).last() == ',',
{
}

/// Two lists whose joined texts (without the final comma) are equal cannot end
/// in a comma-free entry that is shorter in the first than in the second, when
/// the second's last entry is comma-free.
proof fn lemma_last_entry_not_shorter(a: Seq<String>, b: Seq<String>)
    requires
        a.len() > 0,
        b.len() > 0,
        !b.last()@.contains(','),
        spec_joined(a.drop_last()) + a.last()@ == spec_joined(b.drop_last()) + b.last()@,
    ensures
        a.last()@.len() >= b.last()@.len(),
{
    let x = a.last()@;
    let y = b.last()@;
    let xa = spec_joined(a.drop_last());
    let yb = spec_joined(b.drop_last());
    let big = xa + x;
    assert((xa + x).len() == (yb + y).len());
    if x.len() < y.len() {
        if a.drop_last().len() == 0 {
            assert(xa.len() == 0);
            assert(big.len() == x.len());
        } else {
            lemma_joined_ends_with_comma(a.drop_last());
            let k = xa.len() - 1;
            assert(big[k] == ',');
            assert(yb + y == big);
            let j = k - yb.len();
            assert(0 <= j < y.len());
            assert((yb + y)[k] == y[j]);
            assert(y.contains(','));
        }
    }
}

/// For comma-free entries, joining is injective: equal joined texts come from
/// the same list of texts, so splitting the text at its commas gives the list
/// back.
pub proof fn lemma_joined_injective(a: Seq<String>, b: Seq<String>)
    requires
        spec_comma_free(a),
        spec_comma_free(b),
        spec_joined(a) == spec_joined(b),
    ensures
        spec_texts(a) == spec_texts(b),
    decreases a.len() + b.len(),
{
    if a.len() == 0 && b.len() == 0 {
        assert(spec_texts(a) =~= spec_texts(b));
    } else if a.len() == 0 {
        lemma_joined_ends_with_comma(b);
    } else if b.len() == 0 {
        lemma_joined_ends_with_comma(a);
    } else {
        let ja = spec_joined(a.drop_last()) + a.last()@;
        let jb = spec_joined(b.drop_last()) + b.last()@;
        assert(spec_joined(a) == ja + seq![',']);
        assert(spec_joined(b) == jb + seq![',']);
        assert(ja =~= spec_joined(a).drop_last());
        assert(jb =~= spec_joined(b).drop_last());
        assert(ja == jb);
        assert(!a.last()@.contains(','));
        assert(!b.last()@.contains(','));
        lemma_last_entry_not_shorter(a, b);
        lemma_last_entry_not_shorter(b, a);
        let x = a.last()@;
        let y = b.last()@;
        let xa = spec_joined(a.drop_last());
        let yb = spec_joined(b.drop_last());
        assert(x.len() == y.len());
        assert(xa.len() == yb.len());
        assert(x =~= ja.subrange(xa.len() as int, ja.len() as int));
        assert(y =~= jb.subrange(yb.len() as int, jb.len() as int));
        assert(xa =~= ja.subrange(0, xa.len() as int));
        assert(yb =~= jb.subrange(0, yb.len() as int));
        assert(spec_comma_free(a.drop_last()));
        assert(spec_comma_free(b.drop_last()));
        lemma_joined_injective(a.drop_last(), b.drop_last());
        assert(spec_texts(a) =~= spec_texts(a.drop_last()).push(x));
        assert(spec_texts(b) =~= spec_texts(b.drop_last()).push(y));
    }
}

/// The pieces of `text` between its commas, as `str::split` makes them: there
/// is always at least one, and each comma starts a new one.
pub open spec fn spec_split_pieces(text: Seq<char>) -> Seq<Seq<char>>
    decreases text.len(),
{
    if text.len() == 0 {
        seq![Seq::empty()]
    } else if text.last() == ',' {
        spec_split_pieces(text.drop_last()).push(Seq::empty())
    } else {
        let before = spec_split_pieces(text.drop_last());
        before.update(before.len() - 1, before.last().push(text.last()))
    }
}

/// The pieces of `text` between its commas, as `str::split_terminator` makes
/// them: like `split`, but a final comma ends the last piece rather than
/// starting an empty one, and an empty text has no pieces.
pub open spec fn spec_split_terminated(text: Seq<char>) -> Seq<Seq<char>> {
    if text.len() == 0 {
        Seq::empty()
    } else if text.last() == ',' {
        spec_split_pieces(text.drop_last())
    } else {
        spec_split_pieces(text)
    }
}

/// `pieces` with `more` appended to its last piece.
pub open spec fn spec_extend_last(pieces: Seq<Seq<char>>, more: Seq<char>) -> Seq<Seq<char>> {
    pieces.update(pieces.len() - 1, pieces.last() + more)
}

/// Splitting always gives at least one piece.
proof fn lemma_split_pieces_nonempty(text: Seq<char>)
    ensures
        spec_split_pieces(text).len() >= 1,
    decreases text.len(),
{
    if text.len() > 0 {
        lemma_split_pieces_nonempty(text.drop_last());
    }
}

/// Appending comma-free characters to a text appends them to its last piece.
proof fn lemma_split_append_comma_free(text: Seq<char>, more: Seq<char>)
    requires
        !more.contains(','),
    ensures
        spec_split_pieces(text + more) == spec_extend_last(spec_split_pieces(text), more),
    decreases more.len(),
{
    lemma_split_pieces_nonempty(text);
    if more.len() == 0 {
        assert(text + more =~= text);
        let p = spec_split_pieces(text);
        assert(p.last() + more =~= p.last());
        assert(spec_extend_last(p, more) =~= p);
    } else {
        let front = more.drop_last();
        let c = more.last();
        assert(!front.contains(',')) by {
            if front.contains(',') {
                let i = choose|i: int| 0 <= i < front.len() && front[i] == ',';
                assert(more[i] == ',');
            }
        }
        assert(c != ',') by {
            assert(more[more.len() - 1] == c);
        }
        lemma_split_append_comma_free(text, front);
        assert((text + more).drop_last() =~= text + front);
        assert((text + more).last() == c);
        let p = spec_split_pieces(text);
        let q = spec_extend_last(p, front);
        assert(spec_split_pieces(text + more) == q.update(q.len() - 1, q.last().push(c)));
        assert((p.last() + front).push(c) =~= p.last() + more);
        assert(q.update(q.len() - 1, q.last().push(c)) =~= spec_extend_last(p, more));
    }
}

/// For comma-free entries, splitting the joined text at its commas gives the
/// entries back.
pub proof fn lemma_split_joined(domains: Seq<String>)
    requires
        spec_comma_free(domains),
    ensures
        spec_split_terminated(spec_joined(domains)) == spec_texts(domains),
    decreases domains.len(),
{
    if domains.len() == 0 {
        assert(spec_texts(domains) =~= Seq::<Seq<char>>::empty());
    } else {
        let before = domains.drop_last();
        let x = domains.last()@;
        let jb = spec_joined(before);
        assert(spec_comma_free(before));
        assert(!x.contains(',')) by {
            assert(!domains[domains.len() - 1]@.contains(','));
        }
        let body = jb + x;
        assert(spec_joined(domains) =~= body.push(','));
        assert(spec_joined(domains).drop_last() =~= body);
        lemma_split_append_comma_free(jb, x);
        lemma_split_joined(before);
        assert(spec_texts(domains) =~= spec_texts(before).push(x));
        if before.len() == 0 {
            assert(jb =~= Seq::<char>::empty());
            assert(spec_split_pieces(jb) =~= seq![Seq::<char>::empty()]);
            assert(Seq::<char>::empty() + x =~= x);
            assert(spec_extend_last(spec_split_pieces(jb), x) =~= spec_texts(domains));
        } else {
            lemma_joined_ends_with_comma(before);
            assert(jb.drop_last().push(',') =~= jb);
            assert(spec_split_pieces(jb) == spec_split_pieces(jb.drop_last()).push(
                Seq::empty(),
            ));
            assert(spec_split_terminated(jb) == spec_split_pieces(jb.drop_last()));
            assert(Seq::<char>::empty() + x =~= x);
            assert(spec_extend_last(spec_split_pieces(jb), x) =~= spec_texts(domains));
        }
    }
}

/// The position of the first entry of `gms` that is `domain`, if there is one.
pub fn domain_position(gms: &[String], domain: &String) -> (pos: Option<usize>)
    ensures
        match pos {
            Some(i) => {
                &&& i < gms@.len()
                &&& gms@[i as int]@ == domain@
                &&& forall|j: int| 0 <= j < i ==> #[trigger] gms@[j]@ != domain@
            },
            None => !spec_lists(gms@, domain@),
        },
{
    let mut i: usize = 0;
    while i < gms.len()
        invariant
            i <= gms@.len(),
            forall|j: int| 0 <= j < i ==> #[trigger] gms@[j]@ != domain@,
        decreases gms@.len() - i,
    {
        if gms[i] == *domain {
            return Some(i);
        }
        i = i + 1;
    }
    None
}

/// The number of this group manager among `gms`: one more than the position of
/// the first entry that is its own domain.
pub fn get_gm_index_from_domains(gms: &[String], domain: &String) -> (index: usize)
    requires
        spec_lists(gms@, domain@),
    ensures
        1 <= index <= gms@.len(),
        gms@[index - 1]@ == domain@,
        forall|j: int| 0 <= j < index - 1 ==> #[trigger] gms@[j]@ != domain@,
{
    let n = gms.len();
    match domain_position(gms, domain) {
        Some(i) => {
            assert(i < n);
            i + 1
        },
        None => {
            proof {
                let j = choose|j: int| 0 <= j < gms@.len() && #[trigger] gms@[j]@ == domain@;
                assert(gms@[j]@ == domain@);
            }
            0
        },
    }
}

} // verus!
