use vstd::prelude::*;

verus! {

pub open spec fn digit_char(d: nat) -> char {
    seq!['0', '1', '2', '3', '4', '5', '6', '7', '8', '9'][d as int]
}

/// The decimal digits of `n`, without sign or leading zeros.
pub open spec fn decimal(n: nat) -> Seq<char>
    decreases n,
{
    if n < 10 {
        seq![digit_char(n)]
    } else {
        decimal(n / 10).push(digit_char(n % 10))
    }
}

/// `parts` joined with `", "` between them.
pub open spec fn join_comma(parts: Seq<Seq<char>>) -> Seq<char>
    decreases parts.len(),
{
    if parts.len() == 0 {
        Seq::empty()
    } else if parts.len() == 1 {
        parts[0]
    } else {
        join_comma(parts.drop_last()) + ", "@ + parts.last()
    }
}

/// Relies on the `Display` of `u64` (through `ToString`): its decimal digits.
#[verifier::external_body]
pub(crate) fn render_u64(n: u64) -> (r: String)
    ensures
        r@ == decimal(n as nat),
{
    n.to_string()
}

/// Joins `parts` with `", "` between them.
pub fn join_with_comma(parts: &Vec<String>) -> (r: String)
    ensures
        r@ == join_comma(parts@.map_values(|s: String| s@)),
{
    let ghost views = parts@.map_values(|s: String| s@);
    let mut out = String::new();
    let mut i: usize = 0;
    while i < parts.len()
        invariant
            i <= parts.len(),
            views == parts@.map_values(|s: String| s@),
            out@ == join_comma(views.subrange(0, i as int)),
        decreases parts.len() - i,
    {
        proof {
            let sub = views.subrange(0, i + 1);
            assert(sub.drop_last() =~= views.subrange(0, i as int));
            assert(sub.last() == parts@[i as int]@);
        }
        if i > 0 {
            out.append(", ");
            proof {
                reveal_strlit(", ");
            }
        }
        out.append(parts[i].as_str());
        proof {
            if i == 0 {
                assert(views.subrange(0, 1).len() == 1);
            }
        }
        i = i + 1;
    }
    proof {
        assert(views.subrange(0, parts.len() as int) =~= views);
    }
    out
}

} // verus!
