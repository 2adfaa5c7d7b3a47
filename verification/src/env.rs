//! A snapshot of environment variables.
//!
//! The process environment is read once by the caller and handed in as
//! pairs; tests build one from literals. When a name occurs more than
//! once, the later pair wins.

use vstd::prelude::*;

use crate::text::{chars_of, eq_chars};

verus! {

#[derive(Debug)]
pub struct Env {
    vars: Vec<(String, String)>,
}

/// Value of the last pair named `name`.
pub open spec fn env_lookup(vars: Seq<(Seq<char>, Seq<char>)>, name: Seq<char>) -> Option<Seq<char>>
    decreases vars.len(),
{
    if vars.len() == 0 {
        None
    } else if vars.last().0 == name {
        Some(vars.last().1)
    } else {
        env_lookup(vars.drop_last(), name)
    }
}

pub open spec fn pair_views(v: Seq<(String, String)>) -> Seq<(Seq<char>, Seq<char>)> {
    v.map_values(|p: (String, String)| (p.0@, p.1@))
}

impl Env {
    /// The variables, as `(name, value)` views.
    pub closed spec fn vars(&self) -> Seq<(Seq<char>, Seq<char>)> {
        pair_views(self.vars@)
    }

    /// Value of `name`, if set.
    pub open spec fn lookup(&self, name: Seq<char>) -> Option<Seq<char>> {
        env_lookup(self.vars(), name)
    }

    /// An environment holding exactly these pairs.
    pub fn from_pairs(vars: Vec<(String, String)>) -> (r: Env)
        ensures
            r.vars() == pair_views(vars@),
    {
        Env { vars }
    }

    /// An environment built from literal pairs.
    pub fn mock(pairs: &[(&str, &str)]) -> (r: Env)
        ensures
            r.vars() == pairs@.map_values(|p: (&str, &str)| (p.0@, p.1@)),
    {
        let mut vars: Vec<(String, String)> = Vec::new();
        let mut i: usize = 0;
        while i < pairs.len()
            invariant
                i <= pairs@.len(),
                pair_views(vars@) == pairs@.take(i as int).map_values(|p: (&str, &str)| (p.0@, p.1@)),
            decreases pairs@.len() - i,
        {
            let (k, v) = pairs[i];
            let ghost before = vars@;
            vars.push((String::from_str(k), String::from_str(v)));
            proof {
                assert(pair_views(vars@) =~= pair_views(before).push((k@, v@)));
                assert(pairs@.take(i + 1).map_values(|p: (&str, &str)| (p.0@, p.1@)) =~= pairs@.take(
                    i as int,
                ).map_values(|p: (&str, &str)| (p.0@, p.1@)).push((k@, v@)));
            }
            i = i + 1;
        }
        proof {
            assert(pairs@.take(pairs@.len() as int) =~= pairs@);
        }
        Env { vars }
    }

    /// Value of `name`, if set.
    pub fn var(&self, name: &str) -> (r: Option<String>)
        ensures
            match r {
                Some(v) => self.lookup(name@) == Some(v@),
                None => self.lookup(name@) is None,
            },
    {
        let target = chars_of(name);
        let mut i: usize = self.vars.len();
        let ghost all = pair_views(self.vars@);
        proof {
            assert(all.take(i as int) =~= all);
        }
        while i > 0
            invariant
                i <= self.vars@.len(),
                all == pair_views(self.vars@),
                target@ == name@,
                env_lookup(all, name@) == env_lookup(all.take(i as int), name@),
            decreases i,
        {
            let ghost pre = all.take(i as int);
            proof {
                assert(pre.last() == (self.vars@[i - 1].0@, self.vars@[i - 1].1@));
                assert(pre.drop_last() =~= all.take(i - 1));
            }
            if eq_chars(&chars_of(self.vars[i - 1].0.as_str()), &target) {
                return Some(self.vars[i - 1].1.clone());
            }
            i = i - 1;
        }
        None
    }
}

} // verus!
