//! Indexing the configured animations.
//!
//! Animations are sent to clients as a list sorted by name; players and
//! mobs refer to theirs by index into that list.
use vstd::prelude::*;
use vstd::string::StrSliceExecFns;

verus! {

/// `a` comes before `b` or equals it, comparing characters in order.
pub open spec fn lex_le(a: Seq<char>, b: Seq<char>) -> bool
    decreases a.len(),
{
    if a.len() == 0 {
        true
    } else if b.len() == 0 {
        false
    } else if (a[0] as u32) < (b[0] as u32) {
        true
    } else if (a[0] as u32) > (b[0] as u32) {
        false
    } else {
        lex_le(a.drop_first(), b.drop_first())
    }
}

proof fn lemma_lex_total(a: Seq<char>, b: Seq<char>)
    ensures
        lex_le(a, b) || lex_le(b, a),
    decreases a.len(),
{
    if a.len() > 0 && b.len() > 0 && (a[0] as u32) == (b[0] as u32) {
        lemma_lex_total(a.drop_first(), b.drop_first());
    }
}

proof fn lemma_lex_trans(a: Seq<char>, b: Seq<char>, c: Seq<char>)
    requires
        lex_le(a, b),
        lex_le(b, c),
    ensures
        lex_le(a, c),
    decreases a.len(),
{
    if a.len() > 0 && b.len() > 0 && c.len() > 0 && (a[0] as u32) == (b[0] as u32) && (b[0] as u32) == (c[0] as u32) {
        lemma_lex_trans(a.drop_first(), b.drop_first(), c.drop_first());
    }
}

proof fn lemma_lex_skip(a: Seq<char>, b: Seq<char>, i: int)
    requires
        0 <= i <= a.len(),
        i <= b.len(),
        a.take(i) == b.take(i),
    ensures
        lex_le(a, b) == lex_le(a.skip(i), b.skip(i)),
    decreases i,
{
    if i > 0 {
        assert(a[0] == a.take(i)[0]);
        assert(b[0] == b.take(i)[0]);
        assert(a.drop_first().take(i - 1) =~= a.take(i).drop_first());
        assert(b.drop_first().take(i - 1) =~= b.take(i).drop_first());
        lemma_lex_skip(a.drop_first(), b.drop_first(), i - 1);
        assert(a.drop_first().skip(i - 1) =~= a.skip(i));
        assert(b.drop_first().skip(i - 1) =~= b.skip(i));
    } else {
        assert(a.skip(0) =~= a);
        assert(b.skip(0) =~= b);
    }
}

/// Whether `a` comes before `b` or equals it.
pub fn str_le(a: &str, b: &str) -> (r: bool)
    ensures
        r == lex_le(a@, b@),
{
    let n = a.unicode_len();
    let m = b.unicode_len();
    let mut i: usize = 0;
    while i < n && i < m
        invariant
            n == a@.len(),
            m == b@.len(),
            i <= n,
            i <= m,
            a@.take(i as int) == b@.take(i as int),
        decreases n - i,
    {
        let x = a.get_char(i);
        let y = b.get_char(i);
        if x != y {
            proof {
                lemma_lex_skip(a@, b@, i as int);
                assert(a@.skip(i as int)[0] == x);
                assert(b@.skip(i as int)[0] == y);
            }
            return (x as u32) < (y as u32);
        }
        assert(a@.take(i + 1) =~= a@.take(i as int).push(x));
        assert(b@.take(i + 1) =~= b@.take(i as int).push(y));
        i = i + 1;
    }
    proof {
        lemma_lex_skip(a@, b@, i as int);
    }
    n <= m
}

/// `order` lists the indices of `names` once each.
pub open spec fn is_permutation(order: Seq<usize>, n: int) -> bool {
    &&& order.len() == n
    &&& forall|k: int| 0 <= k < n ==> (#[trigger] order[k]) < n
    &&& forall|a: int, b: int| 0 <= a < b < n ==> order[a] != order[b]
    &&& forall|j: int| 0 <= j < n ==> #[trigger] order.contains(j as usize)
}

/// `order` lists the names in ascending order.
pub open spec fn sorts(order: Seq<usize>, names: Seq<Seq<char>>) -> bool {
    forall|a: int, b: int| 0 <= a < b < order.len() ==> lex_le(names[#[trigger] order[a] as int], names[#[trigger] order[b] as int])
}

/// The views of a list of names.
pub open spec fn name_views(names: Seq<String>) -> Seq<Seq<char>> {
    names.map_values(|s: String| s@)
}

/// The indices of `names` in ascending order of the names.
pub fn sorted_order(names: &Vec<String>) -> (order: Vec<usize>)
    ensures
        is_permutation(order@, names@.len() as int),
        sorts(order@, name_views(names@)),
{
    let ghost nv = name_views(names@);
    let mut order: Vec<usize> = Vec::new();
    let mut i: usize = 0;
    while i < names.len()
        invariant
            nv == name_views(names@),
            i <= names.len(),
            is_permutation(order@, i as int),
            sorts(order@, nv),
        decreases names.len() - i,
    {
        let mut p: usize = 0;
        while p < order.len() && str_le(names[order[p]].as_str(), names[i].as_str())
            invariant
                nv == name_views(names@),
                i < names.len(),
                is_permutation(order@, i as int),
                sorts(order@, nv),
                p <= order.len(),
                forall|k: int| 0 <= k < p ==> lex_le(nv[#[trigger] order@[k] as int], nv[i as int]),
            decreases order.len() - p,
        {
            assert(nv[order@[p as int] as int] == names@[order@[p as int] as int]@);
            p = p + 1;
        }
        proof {
            if p < order.len() {
                assert(nv[order@[p as int] as int] == names@[order@[p as int] as int]@);
                assert(!lex_le(nv[order@[p as int] as int], nv[i as int]));
                lemma_lex_total(nv[order@[p as int] as int], nv[i as int]);
            }
        }
        let ghost old_order = order@;
        order.insert(p, i);
        proof {
            assert forall|j: int| 0 <= j < i + 1 implies #[trigger] order@.contains(j as usize) by {
                if j == i {
                    assert(order@[p as int] == i);
                } else {
                    assert(old_order.contains(j as usize));
                    let k = choose|k: int| 0 <= k < old_order.len() && old_order[k] == j as usize;
                    if k < p {
                        assert(order@[k] == old_order[k]);
                    } else {
                        assert(order@[k + 1] == old_order[k]);
                    }
                }
            }
            assert forall|k: int| 0 <= k < i + 1 implies (#[trigger] order@[k]) < i + 1 by {
                if k < p {
                    assert(order@[k] == old_order[k]);
                } else if k > p {
                    assert(order@[k] == old_order[k - 1]);
                }
            }
            assert forall|a: int, b: int| 0 <= a < b < i + 1 implies order@[a] != order@[b] by {
                if a < p && b < p {
                    assert(order@[a] == old_order[a] && order@[b] == old_order[b]);
                } else if a < p && b == p {
                    assert(old_order[a] < i);
                } else if a < p && b > p {
                    assert(order@[a] == old_order[a] && order@[b] == old_order[b - 1]);
                } else if a == p {
                    assert(old_order[b - 1] < i);
                } else {
                    assert(order@[a] == old_order[a - 1] && order@[b] == old_order[b - 1]);
                }
            }
            assert forall|a: int, b: int| 0 <= a < b < order@.len() implies lex_le(
                nv[#[trigger] order@[a] as int],
                nv[#[trigger] order@[b] as int],
            ) by {
                if a < p && b < p {
                    assert(order@[a] == old_order[a] && order@[b] == old_order[b]);
                } else if a < p && b == p {
                    assert(order@[a] == old_order[a]);
                } else if a < p && b > p {
                    assert(order@[a] == old_order[a] && order@[b] == old_order[b - 1]);
                } else if a == p {
                    assert(order@[b] == old_order[b - 1]);
                    assert(lex_le(nv[i as int], nv[old_order[p as int] as int]));
                    if b - 1 > p {
                        assert(lex_le(nv[old_order[p as int] as int], nv[old_order[b - 1] as int]));
                        lemma_lex_trans(nv[i as int], nv[old_order[p as int] as int], nv[old_order[b - 1] as int]);
                    }
                } else {
                    assert(order@[a] == old_order[a - 1] && order@[b] == old_order[b - 1]);
                }
            }
        }
        i = i + 1;
    }
    order
}

/// Index of the first of `keys` equal to `name`.
pub open spec fn first_index(keys: Seq<Seq<char>>, name: Seq<char>, from: int) -> Option<int>
    decreases keys.len() - from,
{
    if from < 0 || from >= keys.len() {
        None
    } else if keys[from] == name {
        Some(from)
    } else {
        first_index(keys, name, from + 1)
    }
}

proof fn lemma_first_index_bounds(keys: Seq<Seq<char>>, name: Seq<char>, from: int)
    ensures
        first_index(keys, name, from) matches Some(i) ==> from <= i < keys.len() && keys[i] == name,
    decreases keys.len() - from,
{
    if 0 <= from < keys.len() && keys[from] != name {
        lemma_first_index_bounds(keys, name, from + 1);
    }
}

/// The position of `name` among `keys`.
pub fn position(keys: &Vec<String>, name: &String) -> (r: Option<usize>)
    ensures
        match first_index(name_views(keys@), name@, 0) {
            None => r is None,
            Some(i) => r == Some(i as usize),
        },
{
    let ghost kv = name_views(keys@);
    let mut i: usize = 0;
    while i < keys.len()
        invariant
            kv == name_views(keys@),
            i <= keys.len(),
            first_index(kv, name@, 0) == first_index(kv, name@, i as int),
        decreases keys.len() - i,
    {
        if keys[i] == *name {
            return Some(i);
        }
        i = i + 1;
    }
    None
}

/// Why the animations of the configuration cannot be indexed.
#[derive(Debug, Clone, Copy, PartialEq, Eq, Structural)]
pub enum AnimationError {
    /// No animation has the player's animation name.
    PlayerAnimationNotFound,
    /// No animation has the name of a mob template.
    MobAnimationNotFound,
}

/// The animation indices of the player and of each mob template, given the
/// sorted animation names.
pub open spec fn spec_resolve_animations(keys: Seq<Seq<char>>, player_animation: Seq<char>, mob_names: Seq<Seq<char>>) -> Result<(u32, Seq<u32>), AnimationError> {
    match first_index(keys, player_animation, 0) {
        None => Err(AnimationError::PlayerAnimationNotFound),
        Some(p) => if forall|j: int| 0 <= j < mob_names.len() ==> (#[trigger] first_index(keys, mob_names[j], 0)) is Some {
            Ok((p as u32, Seq::new(mob_names.len(), |j: int| first_index(keys, mob_names[j], 0)->Some_0 as u32)))
        } else {
            Err(AnimationError::MobAnimationNotFound)
        },
    }
}

/// Looks up the animation of the player and of each mob template (a mob
/// template's animation is the one named like the template).
pub fn resolve_animations(keys: &Vec<String>, player_animation: &String, mob_names: &Vec<String>) -> (r: Result<(u32, Vec<u32>), AnimationError>)
    ensures
        match spec_resolve_animations(name_views(keys@), player_animation@, name_views(mob_names@)) {
            Ok((p, m)) => r is Ok && r->Ok_0.0 == p && r->Ok_0.1@ == m,
            Err(e) => r == Err::<(u32, Vec<u32>), AnimationError>(e),
        },
{
    let ghost kv = name_views(keys@);
    let ghost mv = name_views(mob_names@);
    proof {
        lemma_first_index_bounds(kv, player_animation@, 0);
    }
    assert(kv.len() == keys.len());
    let player_index = match position(keys, player_animation) {
        Some(p) => p,
        None => {
            return Err(AnimationError::PlayerAnimationNotFound);
        },
    };
    assert(first_index(kv, player_animation@, 0) == Some(player_index as int));
    #[verifier::truncate]
    let player = player_index as u32;
    let mut mobs: Vec<u32> = Vec::new();
    let mut j: usize = 0;
    while j < mob_names.len()
        invariant
            kv == name_views(keys@),
            kv.len() == keys.len(),
            mv == name_views(mob_names@),
            first_index(kv, player_animation@, 0) == Some(player_index as int),
            player == player_index as u32,
            j <= mob_names.len(),
            mobs@.len() == j,
            forall|k: int| 0 <= k < j ==> (#[trigger] first_index(kv, mv[k], 0)) is Some
                && mobs@[k] == first_index(kv, mv[k], 0)->Some_0 as u32,
        decreases mob_names.len() - j,
    {
        assert(mv[j as int] == mob_names@[j as int]@);
        proof {
            lemma_first_index_bounds(kv, mv[j as int], 0);
        }
        match position(keys, &mob_names[j]) {
            Some(index) => {
                assert(first_index(kv, mv[j as int], 0) is Some);
                assert(index as int == first_index(kv, mv[j as int], 0)->Some_0);
                #[verifier::truncate]
                let index32 = index as u32;
                mobs.push(index32);
            },
            None => {
                assert(first_index(kv, mv[j as int], 0) is None);
                assert(!(forall|k: int| 0 <= k < mv.len() ==> (#[trigger] first_index(kv, mv[k], 0)) is Some));
                return Err(AnimationError::MobAnimationNotFound);
            },
        }
        j = j + 1;
    }
    assert(mobs@ =~= Seq::new(mv.len(), |j: int| first_index(kv, mv[j], 0)->Some_0 as u32));
    Ok((player, mobs))
}

/// The index found for the player, and for each mob template, points at an
/// animation of that name.
pub proof fn law_animation_indices_name_their_animations(
    keys: Seq<Seq<char>>,
    player_animation: Seq<char>,
    mob_names: Seq<Seq<char>>,
)
    requires
        keys.len() <= u32::MAX,
    ensures
        spec_resolve_animations(keys, player_animation, mob_names) matches Ok((p, m)) ==> {
            &&& p < keys.len()
            &&& keys[p as int] == player_animation
            &&& m.len() == mob_names.len()
            &&& forall|j: int| 0 <= j < mob_names.len() ==> (#[trigger] m[j]) < keys.len() && keys[m[j] as int] == mob_names[j]
        },
{
    lemma_first_index_bounds(keys, player_animation, 0);
    if let Ok((p, m)) = spec_resolve_animations(keys, player_animation, mob_names) {
        assert forall|j: int| 0 <= j < mob_names.len() implies (#[trigger] m[j]) < keys.len() && keys[m[j] as int]
            == mob_names[j] by {
            lemma_first_index_bounds(keys, mob_names[j], 0);
            assert(first_index(keys, mob_names[j], 0) is Some);
        }
    }
}

/// The animations in the order sent to clients, and the animation of the
/// player and of each mob template as an index into that order.
#[derive(Debug, Clone)]
pub struct AnimationIndex {
    /// The configured animations by ascending name, as indices into the
    /// configured list.
    pub order: Vec<usize>,
    pub player_animation: u32,
    pub mob_animations: Vec<u32>,
}

/// The names of `names` in the order `order`.
pub open spec fn reorder(names: Seq<Seq<char>>, order: Seq<usize>) -> Seq<Seq<char>> {
    order.map_values(|i: usize| names[i as int])
}

/// Why the animations cannot be indexed, looking only at which names are
/// configured.
pub open spec fn spec_animation_error(names: Seq<Seq<char>>, player_animation: Seq<char>, mob_names: Seq<Seq<char>>) -> Option<AnimationError> {
    if !names.contains(player_animation) {
        Some(AnimationError::PlayerAnimationNotFound)
    } else if exists|j: int| 0 <= j < mob_names.len() && !names.contains(#[trigger] mob_names[j]) {
        Some(AnimationError::MobAnimationNotFound)
    } else {
        None
    }
}

proof fn lemma_first_index_contains(keys: Seq<Seq<char>>, name: Seq<char>, from: int)
    requires
        0 <= from <= keys.len(),
    ensures
        first_index(keys, name, from) is Some <==> exists|i: int| from <= i < keys.len() && keys[i] == name,
    decreases keys.len() - from,
{
    if from < keys.len() {
        lemma_first_index_contains(keys, name, from + 1);
        if keys[from] != name {
            if exists|i: int| from <= i < keys.len() && keys[i] == name {
                let i = choose|i: int| from <= i < keys.len() && keys[i] == name;
                assert(from + 1 <= i);
            }
        }
    }
}

proof fn lemma_reorder_contains(names: Seq<Seq<char>>, order: Seq<usize>, x: Seq<char>)
    requires
        names.len() <= usize::MAX,
        is_permutation(order, names.len() as int),
    ensures
        reorder(names, order).contains(x) <==> names.contains(x),
{
    let r = reorder(names, order);
    if names.contains(x) {
        let j = choose|j: int| 0 <= j < names.len() && names[j] == x;
        assert(order.contains(j as usize));
        let k = choose|k: int| 0 <= k < order.len() && order[k] == j as usize;
        assert(r[k] == x);
    }
    if r.contains(x) {
        let k = choose|k: int| 0 <= k < r.len() && r[k] == x;
        assert(order[k] < names.len());
        assert(names[order[k] as int] == x);
    }
}

/// Sorts the configured animations by name and finds the animation of the
/// player and of each mob template among them.
pub fn index_animations(names: &Vec<String>, player_animation: &String, mob_names: &Vec<String>) -> (r: Result<AnimationIndex, AnimationError>)
    ensures
        match spec_animation_error(name_views(names@), player_animation@, name_views(mob_names@)) {
            Some(e) => r == Err::<AnimationIndex, AnimationError>(e),
            None => r is Ok,
        },
        r matches Ok(ix) ==> {
            &&& is_permutation(ix.order@, names@.len() as int)
            &&& sorts(ix.order@, name_views(names@))
            &&& spec_resolve_animations(reorder(name_views(names@), ix.order@), player_animation@, name_views(mob_names@))
                == Ok::<(u32, Seq<u32>), AnimationError>((ix.player_animation, ix.mob_animations@))
        },
{
    let ghost nv = name_views(names@);
    let ghost mv = name_views(mob_names@);
    let order = sorted_order(names);
    let mut keys: Vec<String> = Vec::new();
    let mut k: usize = 0;
    while k < order.len()
        invariant
            nv == name_views(names@),
            is_permutation(order@, names@.len() as int),
            k <= order.len(),
            name_views(keys@) == reorder(nv, order@).take(k as int),
        decreases order.len() - k,
    {
        assert(order@[k as int] < names@.len());
        let name = names[order[k]].clone();
        assert(name@ == nv[order@[k as int] as int]);
        let ghost before = keys@;
        keys.push(name);
        assert(name_views(keys@) =~= name_views(before).push(name@));
        assert(name_views(keys@) =~= reorder(nv, order@).take(k + 1));
        k = k + 1;
    }
    let ghost kv = reorder(nv, order@);
    assert(kv.take(order.len() as int) =~= kv);
    proof {
        lemma_first_index_contains(kv, player_animation@, 0);
        lemma_reorder_contains(nv, order@, player_animation@);
        assert forall|j: int| 0 <= j < mv.len() implies (#[trigger] first_index(kv, mv[j], 0)) is Some == nv.contains(mv[j]) by {
            lemma_first_index_contains(kv, mv[j], 0);
            lemma_reorder_contains(nv, order@, mv[j]);
        }
        if exists|j: int| 0 <= j < mv.len() && !nv.contains(#[trigger] mv[j]) {
            let j = choose|j: int| 0 <= j < mv.len() && !nv.contains(#[trigger] mv[j]);
            assert(first_index(kv, mv[j], 0) is None);
        } else {
            assert forall|j: int| 0 <= j < mv.len() implies (#[trigger] first_index(kv, mv[j], 0)) is Some by {
                assert(nv.contains(mv[j]));
            }
        }
    }
    match resolve_animations(&keys, player_animation, mob_names) {
        Ok((player_animation, mob_animations)) => Ok(AnimationIndex { order, player_animation, mob_animations }),
        Err(e) => Err(e),
    }
}

} // verus!
