use vstd::prelude::*;

verus! {

/// Number of ranked rows the leaderboard shows.
pub const TOP_N: usize = 5;

/// The result of one finished round. Ids count rounds from 1 within a session.
#[derive(Clone, Copy, Debug, PartialEq, Eq, Structural)]
pub struct Score {
    pub id: usize,
    pub score: usize,
}

/// Ranking order: the higher score first; of equal scores, the earlier round (lower id) first.
pub open spec fn ranks_before(a: Score, b: Score) -> bool {
    a.score > b.score || (a.score == b.score && a.id < b.id)
}

/// Every entry ranks before each entry after it.
pub open spec fn ranked(r: Seq<Score>) -> bool {
    forall|i: int, j: int| 0 <= i < j < r.len() ==> ranks_before(#[trigger] r[i], #[trigger] r[j])
}

/// `r` is the first `n` entries of the ranking of `s` (all of them when `s` has fewer): in
/// ranking order, taken from `s`, and ahead of every entry of `s` that it leaves out.
pub open spec fn is_top(r: Seq<Score>, s: Seq<Score>, n: nat) -> bool {
    &&& r.len() == if n < s.len() {
        n
    } else {
        s.len()
    }
    &&& ranked(r)
    &&& forall|i: int| 0 <= i < r.len() ==> s.contains(#[trigger] r[i])
    &&& forall|x: Score|
        s.contains(x) && !r.contains(x) ==> forall|i: int|
            0 <= i < r.len() ==> ranks_before(#[trigger] r[i], x)
}

/// What the leaderboard screen shows: the ranked rows, the latest round's result, and that
/// result once more as an extra row when it is not among the ranked ones.
pub struct Standings {
    pub top: Vec<Score>,
    pub latest: Score,
    pub extra: Option<Score>,
}

/// The results of every round of the session, in the order the rounds ended.
pub struct Leaderboard {
    pub scores: Vec<Score>,
}

fn ranks_before_exec(a: Score, b: Score) -> (r: bool)
    ensures
        r == ranks_before(a, b),
{
    a.score > b.score || (a.score == b.score && a.id < b.id)
}

impl Leaderboard {
    /// Ids are handed out in order, starting at 1.
    pub open spec fn wf(&self) -> bool {
        forall|i: int| 0 <= i < self.scores@.len() ==> (#[trigger] self.scores@[i]).id == i + 1
    }

    pub fn new() -> (l: Leaderboard)
        ensures
            l.wf(),
            l.scores@.len() == 0,
    {
        Leaderboard { scores: Vec::new() }
    }

    /// Number of rounds recorded.
    pub fn count(&self) -> (n: usize)
        ensures
            n == self.scores@.len(),
    {
        self.scores.len()
    }

    /// Appends the result of a round that scored `score`, with the next id.
    pub fn record(&mut self, score: usize) -> (s: Score)
        requires
            old(self).wf(),
            old(self).scores@.len() < usize::MAX,
        ensures
            final(self).wf(),
            s == (Score { id: (old(self).scores@.len() + 1) as usize, score }),
            final(self).scores@ == old(self).scores@.push(s),
    {
        let s = Score { id: self.scores.len() + 1, score };
        self.scores.push(s);
        s
    }

    /// The result of the latest round: the one with the highest id.
    pub fn most_recent(&self) -> (r: Option<Score>)
        requires
            self.wf(),
        ensures
            r is Some <==> self.scores@.len() > 0,
            r matches Some(s) ==> {
                &&& s == self.scores@.last()
                &&& forall|i: int|
                    0 <= i < self.scores@.len() ==> (#[trigger] self.scores@[i]).id <= s.id
            },
    {
        let n = self.scores.len();
        if n == 0 {
            None
        } else {
            assert(self.scores@[n - 1].id == n);
            Some(self.scores[n - 1])
        }
    }

    /// Every result, in ranking order.
    fn ranking(&self) -> (r: Vec<Score>)
        requires
            self.wf(),
        ensures
            r@.len() == self.scores@.len(),
            ranked(r@),
            forall|j: int| 0 <= j < r@.len() ==> self.scores@.contains(#[trigger] r@[j]),
            forall|x: Score| self.scores@.contains(x) ==> r@.contains(x),
    {
        let n = self.scores.len();
        let mut r: Vec<Score> = Vec::new();
        let ghost mut loc: Seq<int> = Seq::empty();
        let mut i: usize = 0;
        while i < n
            invariant
                self.wf(),
                n == self.scores@.len(),
                i <= n,
                r@.len() == i,
                loc.len() == i,
                ranked(r@),
                forall|j: int|
                    0 <= j < r@.len() ==> 1 <= (#[trigger] r@[j]).id <= i && r@[j]
                        == self.scores@[r@[j].id - 1],
                forall|k: int|
                    0 <= k < i ==> 0 <= #[trigger] loc[k] < r@.len() && r@[loc[k]]
                        == self.scores@[k],
            decreases n - i,
        {
            let x = self.scores[i];
            let mut pos: usize = 0;
            while pos < r.len() && !ranks_before_exec(x, r[pos])
                invariant
                    pos <= r@.len(),
                    forall|j: int| 0 <= j < pos ==> !ranks_before(x, #[trigger] r@[j]),
                decreases r@.len() - pos,
            {
                pos += 1;
            }
            let ghost old_r = r@;
            r.insert(pos, x);
            proof {
                old_r.insert_ensures(pos as int, x);
                assert(x.id == i + 1);
                assert forall|a: int, b: int| 0 <= a < b < r@.len() implies ranks_before(
                    #[trigger] r@[a],
                    #[trigger] r@[b],
                ) by {
                    if b < pos {
                    } else if a < pos && b == pos {
                        assert(!ranks_before(x, old_r[a]));
                        assert(old_r[a].id <= i);
                    } else if a < pos {
                        assert(r@[b] == old_r[b - 1]);
                    } else if a == pos {
                        assert(r@[b] == old_r[b - 1]);
                        assert(ranks_before(x, old_r[pos as int]));
                    } else {
                        assert(r@[a] == old_r[a - 1]);
                        assert(r@[b] == old_r[b - 1]);
                    }
                }
                assert forall|j: int| 0 <= j < r@.len() implies 1 <= (#[trigger] r@[j]).id <= i + 1
                    && r@[j] == self.scores@[r@[j].id - 1] by {
                    if j > pos {
                        assert(r@[j] == old_r[j - 1]);
                    }
                }
                let old_loc = loc;
                loc = Seq::new(
                    (i + 1) as nat,
                    |k: int|
                        if k == i {
                            pos as int
                        } else if old_loc[k] >= pos {
                            old_loc[k] + 1
                        } else {
                            old_loc[k]
                        },
                );
                assert forall|k: int| 0 <= k < i + 1 implies 0 <= #[trigger] loc[k] < r@.len()
                    && r@[loc[k]] == self.scores@[k] by {
                    if k < i {
                        assert(old_r[old_loc[k]] == self.scores@[k]);
                    }
                }
            }
            i += 1;
        }
        proof {
            assert forall|j: int| 0 <= j < r@.len() implies self.scores@.contains(
                #[trigger] r@[j],
            ) by {
                assert(self.scores@[r@[j].id - 1] == r@[j]);
            }
            assert forall|x: Score| self.scores@.contains(x) implies r@.contains(x) by {
                let k = choose|k: int| 0 <= k < n && self.scores@[k] == x;
                assert(r@[loc[k]] == x);
            }
        }
        r
    }
}


impl Leaderboard {
    /// The best `n` results (all of them when fewer were recorded), best first: by score,
    /// highest first, and of equal scores the earlier round first.
    pub fn top_scores(&self, n: usize) -> (r: Vec<Score>)
        requires
            self.wf(),
        ensures
            is_top(r@, self.scores@, n as nat),
            r@.len() == if n < self.scores@.len() {
                n as int
            } else {
                self.scores@.len() as int
            },
            forall|i: int, j: int|
                0 <= i < j < r@.len() ==> (#[trigger] r@[i]).score >= (#[trigger] r@[j]).score,
    {
        let all = self.ranking();
        let want = if n < all.len() {
            n
        } else {
            all.len()
        };
        let mut r: Vec<Score> = Vec::new();
        let mut k: usize = 0;
        while k < want
            invariant
                want <= all@.len(),
                k <= want,
                r@ == all@.subrange(0, k as int),
            decreases want - k,
        {
            r.push(all[k]);
            k += 1;
            assert(r@ =~= all@.subrange(0, k as int));
        }
        proof {
            assert forall|x: Score| self.scores@.contains(x) && !r@.contains(x) implies forall|
                i: int,
            | 0 <= i < r@.len() ==> ranks_before(#[trigger] r@[i], x) by {
                assert(all@.contains(x));
                let j = choose|j: int| 0 <= j < all@.len() && all@[j] == x;
                if j < want {
                    assert(r@[j] == x);
                }
                assert forall|i: int| 0 <= i < r@.len() implies ranks_before(
                    #[trigger] r@[i],
                    x,
                ) by {
                    assert(r@[i] == all@[i]);
                }
            }
            assert forall|i: int, j: int| 0 <= i < j < r@.len() implies ranks_before(
                #[trigger] r@[i],
                #[trigger] r@[j],
            ) by {
                assert(r@[i] == all@[i]);
                assert(r@[j] == all@[j]);
            }
            assert forall|i: int| 0 <= i < r@.len() implies self.scores@.contains(
                #[trigger] r@[i],
            ) by {
                assert(r@[i] == all@[i]);
            }
        }
        r
    }

    /// What the leaderboard screen shows once a round has been recorded: the best `TOP_N`
    /// results, the latest result, and the latest result as an extra row exactly when it is not
    /// among the best.
    pub fn standings(&self) -> (r: Option<Standings>)
        requires
            self.wf(),
        ensures
            r is Some <==> self.scores@.len() > 0,
            r matches Some(st) ==> {
                &&& is_top(st.top@, self.scores@, TOP_N as nat)
                &&& st.latest == self.scores@.last()
                &&& st.extra == if st.top@.contains(st.latest) {
                    None
                } else {
                    Some(st.latest)
                }
            },
    {
        let latest = match self.most_recent() {
            Some(s) => s,
            None => {
                return None;
            },
        };
        let top = self.top_scores(TOP_N);
        let mut found = false;
        let mut k: usize = 0;
        while k < top.len()
            invariant
                k <= top@.len(),
                found == exists|j: int| 0 <= j < k && top@[j] == latest,
            decreases top@.len() - k,
        {
            if top[k] == latest {
                found = true;
            }
            k += 1;
        }
        let extra = if found {
            None
        } else {
            Some(latest)
        };
        Some(Standings { top, latest, extra })
    }
}

} // verus!
