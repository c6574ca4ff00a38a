use vstd::prelude::*;

use crate::ingredients::IngredientMap;

verus! {

/// A recipe's per-unit requirements beside a pantry's available stock.
pub struct Bakery {
    pub recipe: IngredientMap,
    pub pantry: IngredientMap,
}

impl Bakery {
    /// Both mappings are free of duplicate ingredient names.
    pub open spec fn wf(&self) -> bool {
        self.recipe.wf() && self.pantry.wf()
    }
}

impl Default for Bakery {
    /// An empty recipe over an empty pantry.
    fn default() -> (r: Self)
        ensures
            r.wf(),
            r.recipe@ == Map::<Seq<char>, u64>::empty(),
            r.pantry@ == Map::<Seq<char>, u64>::empty(),
    {
        Bakery { recipe: IngredientMap::new(), pantry: IngredientMap::new() }
    }
}

/// The produced unit count together with the pantry contents left afterwards.
pub struct BakeReply {
    pub cookies: u64,
    pub pantry: IngredientMap,
}

/// Every ingredient the recipe lists is stocked, in at least the required
/// quantity.
pub open spec fn feasible(recipe: Map<Seq<char>, u64>, pantry: Map<Seq<char>, u64>) -> bool {
    forall|k: Seq<char>|
        #[trigger] recipe.contains_key(k) ==> pantry.contains_key(k) && recipe[k] <= pantry[k]
}

/// How many units a single positive requirement allows from a stock.
pub open spec fn batch_limit(required: u64, stocked: u64) -> int {
    stocked as int / required as int
}

/// `c` is the unit count the pantry allows: no positive requirement allows
/// fewer, some positive requirement allows exactly `c`, and a recipe without
/// a positive requirement (empty, or all zeroes) counts as zero by
/// convention, since no ingredient bounds production.
pub open spec fn is_batch_count(
    c: int,
    recipe: Map<Seq<char>, u64>,
    pantry: Map<Seq<char>, u64>,
) -> bool {
    &&& forall|k: Seq<char>|
        #[trigger] recipe.contains_key(k) && recipe[k] > 0 ==> c <= batch_limit(
            recipe[k],
            pantry[k],
        )
    &&& if exists|k: Seq<char>| #[trigger] recipe.contains_key(k) && recipe[k] > 0 {
        exists|k: Seq<char>|
            #[trigger] recipe.contains_key(k) && recipe[k] > 0 && c == batch_limit(
                recipe[k],
                pantry[k],
            )
    } else {
        c == 0
    }
}

/// What the allocator promises of its reply, over the recipe and pantry maps:
/// an infeasible recipe leaves zero units and the stock unchanged; a feasible
/// one leaves the allowed unit count and the residual stock over exactly the
/// recipe's own ingredients.
pub open spec fn bake_reply_matches(
    reply: BakeReply,
    recipe: Map<Seq<char>, u64>,
    pantry: Map<Seq<char>, u64>,
) -> bool {
    if feasible(recipe, pantry) {
        &&& is_batch_count(reply.cookies as int, recipe, pantry)
        &&& forall|k: Seq<char>|
            #![auto]
            reply.pantry@.contains_key(k) <==> recipe.contains_key(k)
        &&& forall|k: Seq<char>|
            #[trigger] recipe.contains_key(k) ==> reply.pantry@[k] == pantry[k] - recipe[k]
                * reply.cookies
    } else {
        reply.cookies == 0 && reply.pantry@ == pantry
    }
}

/// A unit count within the per-ingredient limit consumes at most the stock.
proof fn lemma_consumption_fits(c: int, r: int, p: int)
    requires
        r > 0,
        0 <= p,
        0 <= c <= p / r,
    ensures
        r * c <= p,
{
    vstd::arithmetic::mul::lemma_mul_inequality(c, p / r, r);
    vstd::arithmetic::div_mod::lemma_fundamental_div_mod(p, r);
    vstd::arithmetic::div_mod::lemma_mod_bound(p, r);
}

/// The maximum number of whole units the pantry's stock can produce of the
/// recipe, and the stock left after producing them.
///
/// If some listed ingredient is missing or short, nothing is produced and the
/// reply carries the pantry unchanged, extra ingredients included; otherwise
/// the reply's pantry holds exactly the recipe's ingredients, each reduced by
/// its consumption.  An ingredient required in quantity zero bounds nothing,
/// and a recipe with no positive requirement produces zero units by
/// convention.
#[verifier::loop_isolation(false)]
pub fn calculate_cookies(bakery: Bakery) -> (reply: BakeReply)
    requires
        bakery.wf(),
    ensures
        reply.pantry.wf(),
        bake_reply_matches(reply, bakery.recipe@, bakery.pantry@),
{
    let Bakery { recipe, pantry } = bakery;
    let n = recipe.len();
    let mut best: u64 = 0;
    let mut seen_positive: bool = false;
    let mut i: usize = 0;
    while i < n
        invariant
            0 <= i <= n,
            n == recipe.pairs().len(),
            recipe.wf(),
            pantry.wf(),
            forall|j: int|
                0 <= j < i ==> pantry@.contains_key(#[trigger] recipe.pairs()[j].0@)
                    && recipe.pairs()[j].1 <= pantry@[recipe.pairs()[j].0@],
            !seen_positive ==> forall|j: int| 0 <= j < i ==> (#[trigger] recipe.pairs()[j]).1 == 0,
            seen_positive ==> forall|j: int|
                0 <= j < i && (#[trigger] recipe.pairs()[j]).1 > 0 ==> best as int <= batch_limit(
                    recipe.pairs()[j].1,
                    pantry@[recipe.pairs()[j].0@],
                ),
            seen_positive ==> exists|j: int|
                0 <= j < i && (#[trigger] recipe.pairs()[j]).1 > 0 && best as int == batch_limit(
                    recipe.pairs()[j].1,
                    pantry@[recipe.pairs()[j].0@],
                ),
        decreases n - i,
    {
        let p = recipe.pair_at(i);
        let required = p.1;
        proof {
            recipe.lemma_pair_in_view(i as int);
        }
        match pantry.get(&p.0) {
            None => {
                proof {
                    assert(recipe@.contains_key(recipe.pairs()[i as int].0@));
                    assert(!feasible(recipe@, pantry@));
                }
                return BakeReply { cookies: 0, pantry };
            },
            Some(stocked) => {
                if required > stocked {
                    proof {
                        assert(recipe@.contains_key(recipe.pairs()[i as int].0@));
                        assert(!feasible(recipe@, pantry@));
                    }
                    return BakeReply { cookies: 0, pantry };
                }
                if required > 0 {
                    let limit = stocked / required;
                    if !seen_positive || limit < best {
                        best = limit;
                    }
                    seen_positive = true;
                }
            },
        }
        i += 1;
    }
    let cookies: u64 = if seen_positive {
        best
    } else {
        0
    };
    proof {
        assert forall|k: Seq<char>| #[trigger]
            recipe@.contains_key(k) implies pantry@.contains_key(k) && recipe@[k]
            <= pantry@[k] by {
            recipe.lemma_view_key_has_pair(k);
            let j = choose|j: int| 0 <= j < recipe.pairs().len() && recipe.pairs()[j].0@ == k;
            recipe.lemma_pair_in_view(j);
        }
        assert(feasible(recipe@, pantry@));
        assert forall|k: Seq<char>| #[trigger]
            recipe@.contains_key(k) && recipe@[k] > 0 implies cookies as int <= batch_limit(
            recipe@[k],
            pantry@[k],
        ) by {
            recipe.lemma_view_key_has_pair(k);
            let j = choose|j: int| 0 <= j < recipe.pairs().len() && recipe.pairs()[j].0@ == k;
            recipe.lemma_pair_in_view(j);
            assert(recipe.pairs()[j].1 > 0);
        }
        if seen_positive {
            let j = choose|j: int|
                0 <= j < recipe.pairs().len() && (#[trigger] recipe.pairs()[j]).1 > 0
                    && best as int == batch_limit(
                    recipe.pairs()[j].1,
                    pantry@[recipe.pairs()[j].0@],
                );
            recipe.lemma_pair_in_view(j);
            assert(recipe@.contains_key(recipe.pairs()[j].0@) && recipe@[recipe.pairs()[j].0@] > 0
                && cookies as int == batch_limit(
                recipe@[recipe.pairs()[j].0@],
                pantry@[recipe.pairs()[j].0@],
            ));
        } else {
            assert forall|k: Seq<char>| #[trigger]
                recipe@.contains_key(k) implies !(recipe@[k] > 0) by {
                recipe.lemma_view_key_has_pair(k);
                let j = choose|j: int| 0 <= j < recipe.pairs().len() && recipe.pairs()[j].0@ == k;
                recipe.lemma_pair_in_view(j);
            }
        }
        assert(is_batch_count(cookies as int, recipe@, pantry@));
    }
    let mut remaining = IngredientMap::new();
    let mut i2: usize = 0;
    while i2 < n
        invariant
            0 <= i2 <= n,
            n == recipe.pairs().len(),
            recipe.wf(),
            pantry.wf(),
            remaining.wf(),
            feasible(recipe@, pantry@),
            is_batch_count(cookies as int, recipe@, pantry@),
            forall|k: Seq<char>|
                #![auto]
                remaining@.contains_key(k) <==> exists|j: int|
                    0 <= j < i2 && recipe.pairs()[j].0@ == k,
            forall|j: int|
                0 <= j < i2 ==> remaining@[(#[trigger] recipe.pairs()[j]).0@] == pantry@[recipe.pairs()[j].0@]
                    - recipe.pairs()[j].1 * cookies,
        decreases n - i2,
    {
        let p = recipe.pair_at(i2);
        let name = p.0.clone();
        let required = p.1;
        proof {
            recipe.lemma_pair_in_view(i2 as int);
        }
        let stocked_opt = pantry.get(&name);
        assert(stocked_opt is Some);
        let stocked = stocked_opt.unwrap();
        proof {
            if required > 0 {
                lemma_consumption_fits(cookies as int, required as int, stocked as int);
            }
            assert(required * cookies <= stocked);
        }
        let used = required * cookies;
        let left = stocked - used;
        remaining.insert(name, left);
        i2 += 1;
    }
    proof {
        assert forall|k: Seq<char>| #[trigger]
            remaining@.contains_key(k) implies recipe@.contains_key(k) by {
            let j = choose|j: int| 0 <= j < recipe.pairs().len() && recipe.pairs()[j].0@ == k;
            recipe.lemma_pair_in_view(j);
        }
        assert forall|k: Seq<char>| #[trigger]
            recipe@.contains_key(k) implies remaining@.contains_key(k) && remaining@[k]
            == pantry@[k] - recipe@[k] * cookies by {
            recipe.lemma_view_key_has_pair(k);
            let j = choose|j: int| 0 <= j < recipe.pairs().len() && recipe.pairs()[j].0@ == k;
            recipe.lemma_pair_in_view(j);
        }
    }
    BakeReply { cookies, pantry: remaining }
}

/// The allowed unit count is unique: two counts that both satisfy
/// `is_batch_count` over the same maps are equal.
pub proof fn lemma_batch_count_unique(
    c1: int,
    c2: int,
    recipe: Map<Seq<char>, u64>,
    pantry: Map<Seq<char>, u64>,
)
    requires
        is_batch_count(c1, recipe, pantry),
        is_batch_count(c2, recipe, pantry),
    ensures
        c1 == c2,
{
    if exists|k: Seq<char>| #[trigger] recipe.contains_key(k) && recipe[k] > 0 {
        let k1 = choose|k: Seq<char>|
            #[trigger] recipe.contains_key(k) && recipe[k] > 0 && c1 == batch_limit(
                recipe[k],
                pantry[k],
            );
        let k2 = choose|k: Seq<char>|
            #[trigger] recipe.contains_key(k) && recipe[k] > 0 && c2 == batch_limit(
                recipe[k],
                pantry[k],
            );
        assert(c2 <= batch_limit(recipe[k1], pantry[k1]));
        assert(c1 <= batch_limit(recipe[k2], pantry[k2]));
    }
}

/// The computation has no hidden state: any two replies that meet the
/// allocator's contract over the same recipe and pantry maps agree on the
/// unit count and on the residual stock.
pub proof fn lemma_reply_deterministic(
    r1: BakeReply,
    r2: BakeReply,
    recipe: Map<Seq<char>, u64>,
    pantry: Map<Seq<char>, u64>,
)
    requires
        bake_reply_matches(r1, recipe, pantry),
        bake_reply_matches(r2, recipe, pantry),
    ensures
        r1.cookies == r2.cookies,
        r1.pantry@ == r2.pantry@,
{
    if feasible(recipe, pantry) {
        lemma_batch_count_unique(r1.cookies as int, r2.cookies as int, recipe, pantry);
        assert forall|k: Seq<char>| #[trigger]
            r1.pantry@.contains_key(k) implies r2.pantry@.contains_key(k) && r1.pantry@[k]
            == r2.pantry@[k] by {
            assert(recipe.contains_key(k));
        }
        assert forall|k: Seq<char>| #[trigger]
            r2.pantry@.contains_key(k) implies r1.pantry@.contains_key(k) by {
            assert(recipe.contains_key(k));
        }
        assert(r1.pantry@ =~= r2.pantry@);
    }
}

} // verus!
