use vstd::multiset::Multiset;
use vstd::prelude::*;

use crate::command_modules::{flavor_at_least, is_flavor_at_least, prefix_sudo, with_sudo};
use crate::data::{DataPoint, Host};
use crate::error::LkError;
use crate::modules::strings_view;

verus! {

/// One configuration generation of a NixOS host.
#[derive(Clone, Debug)]
pub struct GenerationData {
    pub generation: u16,
    /// An ISO 8601 UTC timestamp such as `2024-01-31T12:00:00Z`.
    pub date: String,
    pub nixos_version: String,
    pub kernel_version: String,
    pub current: bool,
}

/// The decimal digits of `n`.
pub open spec fn decimal(n: nat) -> Seq<char>
    decreases n,
{
    if n < 10 {
        seq!["0123456789"@[n as int]]
    } else {
        decimal(n / 10).push("0123456789"@[(n % 10) as int])
    }
}

pub fn decimal_string(n: u64) -> (r: String)
    ensures
        r@ == decimal(n as nat),
    decreases n,
{
    let digits = "0123456789";
    proof {
        reveal_strlit("0123456789");
    }
    let last = (n % 10) as usize;
    if n < 10 {
        let d = digits.substring_char(last, last + 1);
        assert(d@ =~= seq!["0123456789"@[n as int]]);
        String::from_str(d)
    } else {
        let mut text = decimal_string(n / 10);
        let d = digits.substring_char(last, last + 1);
        assert(d@ =~= seq!["0123456789"@[(n % 10) as int]]);
        text.append(d);
        text
    }
}

/// The date as shown: `T` becomes a space and `Z` is dropped.
pub open spec fn display_date(date: Seq<char>) -> Seq<char>
    decreases date.len(),
{
    if date.len() == 0 {
        Seq::empty()
    } else if date.last() == 'T' {
        display_date(date.drop_last()).push(' ')
    } else if date.last() == 'Z' {
        display_date(date.drop_last())
    } else {
        display_date(date.drop_last()).push(date.last())
    }
}

pub fn display_date_string(date: &String) -> (r: String)
    ensures
        r@ == display_date(date@),
{
    let text = date.as_str();
    let n = text.unicode_len();
    let mut out = String::new();
    let mut i: usize = 0;
    assert(date@.subrange(0, 0) =~= Seq::<char>::empty());
    while i < n
        invariant
            n == date@.len(),
            text@ == date@,
            i <= n,
            out@ == display_date(date@.subrange(0, i as int)),
        decreases n - i,
    {
        let c = text.get_char(i);
        proof {
            let s = date@.subrange(0, i as int + 1);
            assert(s.drop_last() =~= date@.subrange(0, i as int));
            assert(s.last() == c);
            reveal_strlit(" ");
        }
        if c == 'T' {
            out.append(" ");
        } else if c != 'Z' {
            let piece = text.substring_char(i, i + 1);
            assert(piece@ =~= seq![c]);
            out.append(piece);
        }
        i = i + 1;
    }
    assert(date@.subrange(0, n as int) =~= date@);
    out
}

/// The data point of one generation: `#<number> @ <date>`, the NixOS and kernel versions, and
/// the tag `Current` on the generation in use.
pub open spec fn generation_point_matches(d: DataPoint, g: GenerationData) -> bool {
    &&& d.label@ == "#"@ + decimal(g.generation as nat) + " @ "@ + display_date(g.date@)
    &&& d.description@ == "NixOS "@ + g.nixos_version@ + " | Kernel "@ + g.kernel_version@
    &&& strings_view(d.tags@) == (if g.current {
        seq!["Current"@]
    } else {
        Seq::empty()
    })
    &&& d.multivalue@.len() == 0
}

pub fn generation_point(g: &GenerationData) -> (r: DataPoint)
    ensures
        generation_point_matches(r, *g),
{
    let mut label = String::from_str("#");
    let number = decimal_string(g.generation as u64);
    label.append(number.as_str());
    label.append(" @ ");
    let date = display_date_string(&g.date);
    label.append(date.as_str());
    let mut description = String::from_str("NixOS ");
    description.append(g.nixos_version.as_str());
    description.append(" | Kernel ");
    description.append(g.kernel_version.as_str());
    let mut point = DataPoint::empty();
    point.label = label;
    point.description = description;
    if g.current {
        let mut tags = Vec::new();
        tags.push(String::from_str("Current"));
        assert(strings_view(tags@) =~= seq!["Current"@]);
        point.tags = tags;
    } else {
        let tags: Vec<String> = Vec::new();
        assert(strings_view(tags@) =~= Seq::<Seq<char>>::empty());
        point.tags = tags;
    }
    point
}

pub open spec fn newest_first(gs: Seq<GenerationData>) -> bool {
    forall|i: int, j: int| 0 <= i < j < gs.len() ==> (#[trigger] gs[i]).generation >= (#[trigger] gs[j]).generation
}

/// `a` and `b` hold the same generations, as many times each.
pub open spec fn same_generations(a: Seq<GenerationData>, b: Seq<GenerationData>) -> bool {
    a.to_multiset() == b.to_multiset()
}

/// Inserting `x` after every generation at least as new keeps the order.
proof fn lemma_insert_keeps_order(before: Seq<GenerationData>, pos: int, x: GenerationData)
    requires
        newest_first(before),
        0 <= pos <= before.len(),
        forall|k: int| 0 <= k < pos ==> (#[trigger] before[k]).generation >= x.generation,
        pos < before.len() ==> before[pos].generation < x.generation,
    ensures
        newest_first(before.insert(pos, x)),
{
    let after = before.insert(pos, x);
    assert forall|i: int, j: int| 0 <= i < j < after.len() implies (#[trigger] after[i]).generation
        >= (#[trigger] after[j]).generation by {
        if j < pos {
            assert(after[i] == before[i] && after[j] == before[j]);
        } else if j == pos {
            assert(after[i] == before[i]);
        } else if i == pos {
            assert(after[j] == before[j - 1]);
            assert(before[pos].generation >= before[j - 1].generation);
        } else if i < pos {
            assert(after[i] == before[i] && after[j] == before[j - 1]);
        } else {
            assert(after[i] == before[i - 1] && after[j] == before[j - 1]);
        }
    }
}

/// Sort generations newest first; generations with the same number keep their order.
pub fn sort_newest_first(generations: Vec<GenerationData>) -> (r: Vec<GenerationData>)
    ensures
        newest_first(r@),
        same_generations(generations@, r@),
{
    broadcast use vstd::seq_lib::group_to_multiset_ensures;
    broadcast use vstd::multiset::group_multiset_axioms;

    let ghost given = generations@;
    let mut rest = generations;
    let mut sorted: Vec<GenerationData> = Vec::new();
    assert(sorted@.to_multiset() =~= Multiset::<GenerationData>::empty());
    assert(sorted@.to_multiset().add(rest@.to_multiset()) =~= given.to_multiset());
    while rest.len() > 0
        invariant
            newest_first(sorted@),
            sorted@.to_multiset().add(rest@.to_multiset()) == given.to_multiset(),
        decreases rest@.len(),
    {
        let ghost before = sorted@;
        let ghost rest_before = rest@;
        let x = rest.remove(0);
        assert(rest@ == rest_before.remove(0));
        let mut pos: usize = 0;
        while pos < sorted.len() && sorted[pos].generation >= x.generation
            invariant
                sorted@ == before,
                pos <= sorted@.len(),
                forall|k: int| 0 <= k < pos ==> (#[trigger] sorted@[k]).generation >= x.generation,
            decreases sorted@.len() - pos,
        {
            pos = pos + 1;
        }
        sorted.insert(pos, x);
        proof {
            assert(sorted@ =~= before.insert(pos as int, x));
            lemma_insert_keeps_order(before, pos as int, x);
            assert(rest_before[0] == x);
            assert(rest_before.contains(x));
            vstd::seq_lib::to_multiset_contains(rest_before, x);
            assert(rest_before.to_multiset().count(x) > 0);
            vstd::seq_lib::to_multiset_remove(rest_before, 0);
            assert(rest@.to_multiset() == rest_before.to_multiset().remove(x));
            vstd::seq_lib::to_multiset_insert(before, pos as int, x);
            assert(sorted@.to_multiset() == before.to_multiset().insert(x));
            assert(sorted@.to_multiset().add(rest@.to_multiset()) =~= before.to_multiset().add(
                rest_before.to_multiset(),
            ));
        }
    }
    assert(rest@.to_multiset() =~= Multiset::<GenerationData>::empty());
    assert(sorted@.to_multiset() =~= given.to_multiset());
    sorted
}

/// Lists a NixOS host's configuration generations.
#[derive(Clone, Debug)]
pub struct RebuildGenerations {}

impl RebuildGenerations {
    pub fn new() -> (r: RebuildGenerations) {
        RebuildGenerations {}
    }

    /// `nixos-rebuild list-generations --json`, on NixOS 20 or later.
    pub fn connector_message(&self, host: &Host) -> (r: Result<String, LkError>)
        ensures
            r is Ok <==> flavor_at_least(host.platform, "nixos"@, 20),
            r matches Ok(m) ==> m@ == with_sudo("nixos-rebuild list-generations --json"@, host.spec_uses_sudo()),
    {
        if is_flavor_at_least(&host.platform, "nixos", 20) {
            Ok(prefix_sudo(String::from_str("nixos-rebuild list-generations --json"), host.uses_sudo()))
        } else {
            Err(LkError::unsupported_platform())
        }
    }

    /// The generations, newest first, as the children of one data point.
    pub fn generations_point(&self, generations: Vec<GenerationData>) -> (r: DataPoint)
        ensures
            exists|sorted: Seq<GenerationData>|
                newest_first(sorted) && same_generations(generations@, sorted) && r.multivalue@.len()
                    == sorted.len() && forall|k: int|
                    0 <= k < sorted.len() ==> generation_point_matches(#[trigger] r.multivalue@[k], sorted[k]),
    {
        let sorted = sort_newest_first(generations);
        let mut result = DataPoint::empty();
        let mut k: usize = 0;
        while k < sorted.len()
            invariant
                k <= sorted@.len(),
                result.multivalue@.len() == k,
                forall|a: int| 0 <= a < k ==> generation_point_matches(#[trigger] result.multivalue@[a], sorted@[a]),
            decreases sorted@.len() - k,
        {
            let point = generation_point(&sorted[k]);
            result.multivalue.push(point);
            k = k + 1;
        }
        result
    }
}

} // verus!
