//! Chance-driven commands. Each decision is a verified function of the
//! drawn number; only the draw itself is trusted to the generator, and
//! nothing is promised of its value beyond its range.

use vstd::prelude::*;

verus! {

/// Relies on `rand::random_range` over `0..n`: a value uniform in the
/// range, which must not be empty (an empty range panics there).
#[verifier::external_body]
fn random_below(n: usize) -> (r: usize)
    requires
        n > 0,
    ensures
        r < n,
{
    rand::random_range(0..n)
}

/// Relies on `rand::random_range` over `low..high`: a value uniform in
/// the range, which must not be empty (an empty range panics there).
#[verifier::external_body]
fn random_in_range(low: i64, high: i64) -> (r: i64)
    requires
        low < high,
    ensures
        low <= r < high,
{
    rand::random_range(low..high)
}

/// Relies on `rand::random`: an arbitrary byte.
#[verifier::external_body]
fn random_byte() -> (r: u8) {
    rand::random()
}

/// What the coin reports for a drawn byte: heads on the low half, tails
/// on the high half, its side on the exact middle.
pub open spec fn coinflip_text(n: u8) -> Seq<char> {
    if n < 127 {
        "Heads"@
    } else if n > 127 {
        "Tails"@
    } else {
        "On its side"@
    }
}

/// The fourteen stock answers, in their fixed order.
pub open spec fn eight_ball_answers() -> Seq<Seq<char>> {
    seq![
        "It is certain"@,
        "Most likely"@,
        "Outlook good"@,
        "Without a doubt"@,
        "Yes"@,
        "You may rely on it"@,
        "Better not tell you now"@,
        "Reply hazy, try again"@,
        "Absolutely not"@,
        "Don't count on it"@,
        "My reply is no"@,
        "My sources say no"@,
        "Outlook not so good"@,
        "Very doubtful"@,
    ]
}

/// `names`, `chunk` at a time: full chunks in order, then whatever is
/// left as a final short chunk. A chunk size of zero (more teams asked
/// for than names given) keeps everyone together.
pub open spec fn chunked(names: Seq<String>, chunk: int) -> Seq<Seq<String>>
    decreases names.len(),
{
    if names.len() == 0 {
        Seq::empty()
    } else if chunk <= 0 || names.len() <= chunk {
        seq![names]
    } else {
        seq![names.take(chunk)] + chunked(names.skip(chunk), chunk)
    }
}

/// The commands that answer with chance: a coin, a die roll over a range,
/// a pick from a list, and team assignment.
pub struct Random;

impl Random {
    /// The one value of this stateless command set.
    pub fn new() -> Random {
        Random
    }

    /// The coin's report for the drawn byte `n`.
    pub fn coinflip_for(n: u8) -> (r: &'static str)
        ensures
            r@ == coinflip_text(n),
    {
        let r = if n < 127 {
            "Heads"
        } else if n > 127 {
            "Tails"
        } else {
            "On its side"
        };
        proof {
            assert(r@ == coinflip_text(n));
        }
        r
    }

    /// Flips the coin: whatever byte was drawn, the report follows
    /// [`coinflip_text`].
    pub fn coinflip(&self) -> (r: &'static str)
        ensures
            exists|n: u8| r@ == coinflip_text(n),
    {
        let n = random_byte();
        let r = Random::coinflip_for(n);
        proof {
            assert(r@ == coinflip_text(n));
        }
        r
    }

    /// One of the given choices, each equally likely; `None` when there
    /// is nothing to choose from.
    pub fn pick<'a>(&self, choices: &'a Vec<String>) -> (r: Option<&'a String>)
        ensures
            r is Some <==> choices@.len() > 0,
            r matches Some(s) ==> exists|i: int| 0 <= i < choices@.len() && *s == choices@[i],
    {
        if choices.len() == 0 {
            None
        } else {
            let i = random_below(choices.len());
            let picked = &choices[i];
            proof {
                assert(*picked == choices@[i as int]);
            }
            Some(picked)
        }
    }

    /// The stock answer at position `i`.
    pub fn answer_at(i: usize) -> (r: &'static str)
        requires
            i < 14,
        ensures
            r@ == eight_ball_answers()[i as int],
    {
        let r = if i == 0 {
            "It is certain"
        } else if i == 1 {
            "Most likely"
        } else if i == 2 {
            "Outlook good"
        } else if i == 3 {
            "Without a doubt"
        } else if i == 4 {
            "Yes"
        } else if i == 5 {
            "You may rely on it"
        } else if i == 6 {
            "Better not tell you now"
        } else if i == 7 {
            "Reply hazy, try again"
        } else if i == 8 {
            "Absolutely not"
        } else if i == 9 {
            "Don't count on it"
        } else if i == 10 {
            "My reply is no"
        } else if i == 11 {
            "My sources say no"
        } else if i == 12 {
            "Outlook not so good"
        } else {
            "Very doubtful"
        };
        proof {
            assert(r@ == eight_ball_answers()[i as int]);
        }
        r
    }

    /// One of the fourteen stock answers.
    pub fn magic_eight_ball(&self) -> (r: &'static str)
        ensures
            exists|i: int| 0 <= i < 14 && r@ == eight_ball_answers()[i],
    {
        let i = random_below(14);
        let r = Random::answer_at(i);
        proof {
            assert(r@ == eight_ball_answers()[i as int]);
        }
        r
    }

    /// A number at least the smaller and below the larger of the two
    /// bounds, whichever order they were given in. Equal bounds leave no
    /// number to draw and are ruled out.
    pub fn roll(&self, a: i64, b: i64) -> (r: i64)
        requires
            a != b,
        ensures
            (if a < b {
                a
            } else {
                b
            }) <= r < (if a < b {
                b
            } else {
                a
            }),
    {
        let low = if a < b {
            a
        } else {
            b
        };
        let high = if a < b {
            b
        } else {
            a
        };
        random_in_range(low, high)
    }

    /// Spins the six-chamber cylinder: fires about one time in six.
    pub fn roulette(&self) -> (fired: bool) {
        let n = random_below(6);
        n == 0
    }

    /// Deals the names into teams of `names.len() / team_count` players,
    /// in the order given: full teams first, the remainder as a final
    /// short team; asking for more teams than names keeps everyone on one
    /// team.
    pub fn teams(&self, names: &Vec<String>, team_count: usize) -> (r: Vec<Vec<String>>)
        requires
            team_count > 0,
        ensures
            r@.map_values(|t: Vec<String>| t@) == chunked(
                names@,
                names@.len() as int / team_count as int,
            ),
    {
        let ppt: usize = names.len() / team_count;
        let mut r: Vec<Vec<String>> = Vec::new();
        let mut start: usize = 0;
        proof {
            let f = |t: Vec<String>| t@;
            assert(r@.map_values(f) =~= Seq::<Seq<String>>::empty());
            assert(names@.skip(0) =~= names@);
            assert(r@.map_values(f) + chunked(names@, ppt as int) =~= chunked(
                names@,
                ppt as int,
            ));
        }
        while start < names.len()
            invariant
                ppt == names@.len() as int / team_count as int,
                start <= names@.len(),
                chunked(names@, ppt as int) == r@.map_values(|t: Vec<String>| t@) + chunked(
                    names@.skip(start as int),
                    ppt as int,
                ),
            decreases names@.len() - start,
        {
            let end: usize = if ppt == 0 || names.len() - start <= ppt {
                names.len()
            } else {
                start + ppt
            };
            let ghost r0 = r@;
            let mut team: Vec<String> = Vec::new();
            let mut j: usize = start;
            while j < end
                invariant
                    start <= j <= end <= names@.len(),
                    team@ == names@.subrange(start as int, j as int),
                decreases end - j,
            {
                team.push(names[j].clone());
                j += 1;
            }
            let ghost gt = team;
            r.push(team);
            proof {
                let f = |t: Vec<String>| t@;
                assert(r@.map_values(f) =~= r0.map_values(f).push(gt@));
                let rest = names@.skip(start as int);
                if ppt == 0 || names@.len() - start <= ppt {
                    assert(gt@ =~= rest);
                    assert(names@.skip(end as int).len() == 0);
                    assert(chunked(rest, ppt as int) =~= seq![rest] + chunked(
                        names@.skip(end as int),
                        ppt as int,
                    ));
                } else {
                    assert(gt@ =~= rest.take(ppt as int));
                    assert(rest.skip(ppt as int) =~= names@.skip(end as int));
                }
                assert(r@.map_values(f) + chunked(names@.skip(end as int), ppt as int)
                    =~= r0.map_values(f) + chunked(rest, ppt as int));
            }
            start = end;
        }
        proof {
            let f = |t: Vec<String>| t@;
            assert(names@.skip(start as int).len() == 0);
            assert(chunked(names@, ppt as int) =~= r@.map_values(f));
        }
        r
    }
}

} // verus!
