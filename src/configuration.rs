use vstd::prelude::*;
use crate::decimal::{append_decimal, decimal};
use crate::elements::{atomic_number, element_symbol, ELEMENT_COUNT};

verus! {

/// The kind of a subshell.
#[derive(Clone, Copy, Debug, PartialEq, Eq, Structural)]
pub enum ShellType {
    S,
    P,
    D,
    F,
}

/// The most electrons a subshell of kind `t` holds.
pub open spec fn capacity(t: ShellType) -> nat {
    match t {
        ShellType::S => 2,
        ShellType::P => 6,
        ShellType::D => 10,
        ShellType::F => 14,
    }
}

/// The letter that names a subshell of kind `t`.
pub open spec fn letter(t: ShellType) -> char {
    match t {
        ShellType::S => 's',
        ShellType::P => 'p',
        ShellType::D => 'd',
        ShellType::F => 'f',
    }
}

/// The subshells available at energy level `n`, in filling order: `s` from
/// level 1, `p` from level 2, `d` from level 3 and `f` from level 4.
pub open spec fn shell_types(n: nat) -> Seq<ShellType> {
    if n == 0 {
        seq![]
    } else if n == 1 {
        seq![ShellType::S]
    } else if n == 2 {
        seq![ShellType::S, ShellType::P]
    } else if n == 3 {
        seq![ShellType::S, ShellType::P, ShellType::D]
    } else {
        seq![ShellType::S, ShellType::P, ShellType::D, ShellType::F]
    }
}

/// The electrons that energy level `n` holds when full.
pub open spec fn level_capacity(n: nat) -> nat {
    if n <= 1 {
        2
    } else if n == 2 {
        8
    } else if n == 3 {
        18
    } else {
        32
    }
}

/// `a - b`, or zero where `b` exceeds `a`.
pub open spec fn saturating_sub(a: nat, b: nat) -> nat {
    if a >= b {
        (a - b) as nat
    } else {
        0
    }
}

/// The electrons left after filling the subshells `types` in order from `remaining`.
pub open spec fn remaining_after(types: Seq<ShellType>, remaining: nat) -> nat
    decreases types.len(),
{
    if types.len() == 0 {
        remaining
    } else {
        let r = remaining_after(types.drop_last(), remaining);
        saturating_sub(r, capacity(types.last()))
    }
}

/// The electron count of each subshell of `types` when they are filled in
/// order, each up to its capacity, from `remaining` electrons.
pub open spec fn level_fill(types: Seq<ShellType>, remaining: nat) -> Seq<nat>
    decreases types.len(),
{
    if types.len() == 0 {
        seq![]
    } else {
        let r = remaining_after(types.drop_last(), remaining);
        let c = if r >= capacity(types.last()) { capacity(types.last()) } else { r };
        level_fill(types.drop_last(), remaining).push(c)
    }
}

/// The token `<n><letter><count>` of one subshell.
pub open spec fn token(n: nat, t: ShellType, electrons: nat) -> Seq<char> {
    decimal(n) + seq![letter(t)] + decimal(electrons)
}

/// The tokens of the subshells of level `n` that hold electrons, given the
/// kinds `types` and the counts `counts` of its subshells.
pub open spec fn level_tokens(n: nat, types: Seq<ShellType>, counts: Seq<nat>) -> Seq<Seq<char>>
    decreases counts.len(),
{
    if counts.len() == 0 {
        seq![]
    } else {
        let prev = level_tokens(n, types, counts.drop_last());
        let i = counts.len() - 1;
        if counts[i] > 0 {
            prev.push(token(n, types[i], counts[i]))
        } else {
            prev
        }
    }
}

/// The tokens of the configuration that places `remaining` electrons from
/// energy level `n` upward: each level's subshells filled in `s`, `p`, `d`, `f`
/// order, and the next level begun only while electrons remain.
pub open spec fn tokens_from(n: nat, remaining: nat) -> Seq<Seq<char>>
    decreases remaining,
{
    if remaining == 0 {
        seq![]
    } else {
        level_tokens(n, shell_types(n), level_fill(shell_types(n), remaining))
            + tokens_from(n + 1, saturating_sub(remaining, level_capacity(n)))
    }
}

/// The tokens joined by single spaces, with no space at either end.
pub open spec fn join(tokens: Seq<Seq<char>>) -> Seq<char>
    decreases tokens.len(),
{
    if tokens.len() == 0 {
        seq![]
    } else if tokens.len() == 1 {
        tokens[0]
    } else {
        join(tokens.drop_last()) + seq![' '] + tokens.last()
    }
}

/// The ground-state configuration text of a neutral atom of atomic number
/// `z`, by naive shell filling (level by level, then `s`, `p`, `d`, `f`).
pub open spec fn configuration_text(z: nat) -> Seq<char> {
    join(tokens_from(1, z))
}

/// One subshell and the electrons placed in it.
#[derive(Clone, Copy, Debug, PartialEq, Eq)]
pub struct Shell {
    pub shell_type: ShellType,
    pub electrons: u32,
}

/// The kinds of a sequence of shells.
pub open spec fn kinds(shells: Seq<Shell>) -> Seq<ShellType> {
    shells.map_values(|s: Shell| s.shell_type)
}

/// The electron counts of a sequence of shells.
pub open spec fn counts(shells: Seq<Shell>) -> Seq<nat> {
    shells.map_values(|s: Shell| s.electrons as nat)
}

impl Shell {
    /// An empty subshell of kind `shell_type`.
    pub fn new(shell_type: ShellType) -> (r: Shell)
        ensures
            r.shell_type == shell_type,
            r.electrons == 0,
    {
        Shell { shell_type, electrons: 0 }
    }

    /// The most electrons this subshell holds.
    pub fn max_electrons(&self) -> (r: u32)
        ensures
            r as nat == capacity(self.shell_type),
    {
        match self.shell_type {
            ShellType::S => 2,
            ShellType::P => 6,
            ShellType::D => 10,
            ShellType::F => 14,
        }
    }

    /// The empty subshells available at energy level `n`.
    pub fn get_possible_shells(n: u32) -> (shells: Vec<Shell>)
        ensures
            kinds(shells@) == shell_types(n as nat),
            forall|i: int| 0 <= i < shells@.len() ==> #[trigger] shells@[i].electrons == 0,
    {
        let mut shells: Vec<Shell> = Vec::new();
        if n > 0 {
            shells.push(Shell::new(ShellType::S));
        }
        if n > 1 {
            shells.push(Shell::new(ShellType::P));
        }
        if n > 2 {
            shells.push(Shell::new(ShellType::D));
        }
        if n > 3 {
            shells.push(Shell::new(ShellType::F));
        }
        assert(kinds(shells@) =~= shell_types(n as nat));
        shells
    }

    /// The subshells of energy level `n`, each filled in order up to its
    /// capacity from `remaining_electrons`, which keeps what is left.
    pub fn from_principle_value(n: u32, remaining_electrons: &mut u32) -> (shells: Vec<Shell>)
        ensures
            kinds(shells@) == shell_types(n as nat),
            counts(shells@) == level_fill(shell_types(n as nat), *old(remaining_electrons) as nat),
            *final(remaining_electrons) as nat == remaining_after(
                shell_types(n as nat),
                *old(remaining_electrons) as nat,
            ),
    {
        let ghost start = *remaining_electrons as nat;
        let ghost types = shell_types(n as nat);
        let mut shells = Self::get_possible_shells(n);
        let mut i: usize = 0;
        while i < shells.len()
            invariant
                0 <= i <= shells@.len(),
                kinds(shells@) == types,
                counts(shells@).take(i as int) == level_fill(types.take(i as int), start),
                *remaining_electrons as nat == remaining_after(types.take(i as int), start),
            decreases shells@.len() - i,
        {
            let ghost before = shells@;
            let shell = shells[i];
            let max_electrons = shell.max_electrons();
            let filled = if *remaining_electrons >= max_electrons {
                *remaining_electrons = *remaining_electrons - max_electrons;
                max_electrons
            } else {
                let r = *remaining_electrons;
                *remaining_electrons = 0;
                r
            };
            shells.set(i, Shell { shell_type: shell.shell_type, electrons: filled });
            proof {
                assert(types.take(i + 1).drop_last() =~= types.take(i as int));
                assert(types.take(i + 1).last() == types[i as int]);
                assert(kinds(before)[i as int] == types[i as int]);
                assert(kinds(shells@) =~= kinds(before));
                assert(counts(shells@).take(i + 1) =~= counts(before).take(i as int).push(
                    filled as nat,
                ));
            }
            i = i + 1;
        }
        assert(types.take(i as int) =~= types);
        assert(counts(shells@).take(i as int) =~= counts(shells@));
        shells
    }
}


/// The letter of a subshell kind, as a string.
fn letter_str(t: ShellType) -> (r: &'static str)
    ensures
        r@ == seq![letter(t)],
{
    proof {
        reveal_strlit("s");
        reveal_strlit("p");
        reveal_strlit("d");
        reveal_strlit("f");
    }
    match t {
        ShellType::S => "s",
        ShellType::P => "p",
        ShellType::D => "d",
        ShellType::F => "f",
    }
}

/// Appends `token` to the text `join(tokens)`, with a separating space where
/// `tokens` is not empty.
proof fn lemma_join_push(tokens: Seq<Seq<char>>, t: Seq<char>)
    ensures
        join(tokens.push(t)) == if tokens.len() == 0 {
            t
        } else {
            join(tokens) + seq![' '] + t
        },
{
    assert(tokens.push(t).drop_last() =~= tokens);
    if tokens.len() == 0 {
        assert(tokens.push(t)[0] == t);
    }
}

/// Filling the subshells of level `n` leaves what a full level would leave.
proof fn lemma_level_remaining(n: nat, r: nat)
    requires
        n >= 1,
    ensures
        remaining_after(shell_types(n), r) == saturating_sub(r, level_capacity(n)),
{
    let t = shell_types(n);
    reveal_with_fuel(remaining_after, 5);
    assert(t.take(0) =~= seq![]);
    if n == 1 {
        assert(t.drop_last() =~= seq![]);
    } else if n == 2 {
        assert(t.drop_last() =~= seq![ShellType::S]);
        assert(t.drop_last().drop_last() =~= seq![]);
    } else if n == 3 {
        assert(t.drop_last() =~= seq![ShellType::S, ShellType::P]);
        assert(t.drop_last().drop_last() =~= seq![ShellType::S]);
        assert(t.drop_last().drop_last().drop_last() =~= seq![]);
    } else {
        assert(t.drop_last() =~= seq![ShellType::S, ShellType::P, ShellType::D]);
        assert(t.drop_last().drop_last() =~= seq![ShellType::S, ShellType::P]);
        assert(t.drop_last().drop_last().drop_last() =~= seq![ShellType::S]);
        assert(t.drop_last().drop_last().drop_last().drop_last() =~= seq![]);
    }
}

/// The subshells of one energy level.
pub struct EnergyLevel {
    pub n: u32,
    pub shells: Vec<Shell>,
}

impl EnergyLevel {
    /// Level `n` with its subshells filled from `remaining_electrons`, which
    /// keeps what is left.
    pub fn new(n: u32, remaining_electrons: &mut u32) -> (r: EnergyLevel)
        requires
            n >= 1,
        ensures
            r.n == n,
            kinds(r.shells@) == shell_types(n as nat),
            counts(r.shells@) == level_fill(shell_types(n as nat), *old(remaining_electrons) as nat),
            *final(remaining_electrons) as nat == saturating_sub(
                *old(remaining_electrons) as nat,
                level_capacity(n as nat),
            ),
    {
        let ghost start = *remaining_electrons as nat;
        let shells = Shell::from_principle_value(n, remaining_electrons);
        proof {
            lemma_level_remaining(n as nat, start);
        }
        EnergyLevel { n, shells }
    }

    /// Appends the tokens of the subshells that hold electrons to `out`, each
    /// after a space where `started` says that `out` already holds a token.
    /// Returns whether `out` holds a token afterwards.
    fn append_tokens(&self, out: &mut String, started: bool, Ghost(done): Ghost<Seq<Seq<char>>>) -> (r: bool)
        requires
            old(out)@ == join(done),
            started == (done.len() > 0),
        ensures
            final(out)@ == join(done + level_tokens(self.n as nat, kinds(self.shells@), counts(self.shells@))),
            r == ((done + level_tokens(self.n as nat, kinds(self.shells@), counts(self.shells@))).len() > 0),
    {
        let ghost types = kinds(self.shells@);
        let ghost cs = counts(self.shells@);
        let mut started = started;
        let mut i: usize = 0;
        while i < self.shells.len()
            invariant
                0 <= i <= self.shells@.len(),
                types == kinds(self.shells@),
                cs == counts(self.shells@),
                out@ == join(done + level_tokens(self.n as nat, types, cs.take(i as int))),
                started == ((done + level_tokens(self.n as nat, types, cs.take(i as int))).len() > 0),
            decreases self.shells@.len() - i,
        {
            let shell = self.shells[i];
            let ghost prev = done + level_tokens(self.n as nat, types, cs.take(i as int));
            assert(cs.take(i + 1).drop_last() =~= cs.take(i as int));
            assert(cs.take(i + 1)[i as int] == shell.electrons as nat);
            assert(types[i as int] == shell.shell_type);
            if shell.electrons > 0 {
                let ghost t = crate::configuration::token(self.n as nat, shell.shell_type, shell.electrons as nat);
                if started {
                    out.append(" ");
                    proof {
                        reveal_strlit(" ");
                    }
                }
                append_decimal(out, self.n);
                out.append(letter_str(shell.shell_type));
                append_decimal(out, shell.electrons);
                proof {
                    lemma_join_push(prev, t);
                    assert(done + level_tokens(self.n as nat, types, cs.take(i + 1)) =~= prev.push(t));
                    assert(out@ =~= join(prev.push(t)));
                }
                started = true;
            } else {
                assert(done + level_tokens(self.n as nat, types, cs.take(i + 1)) =~= prev);
            }
            i = i + 1;
        }
        assert(cs.take(i as int) =~= cs);
        started
    }
}

/// The ground-state configuration of a neutral atom of atomic number
/// `atomic_number`, as `<n><letter><count>` tokens joined by spaces.
pub fn electron_configuration(atomic_number: u32) -> (r: String)
    ensures
        r@ == configuration_text(atomic_number as nat),
{
    let ghost z = atomic_number as nat;
    let mut electrons_remaining = atomic_number;
    let mut out = String::new();
    let mut started = false;
    let ghost mut done: Seq<Seq<char>> = seq![];
    let mut n: u32 = 1;
    while electrons_remaining > 0
        invariant
            z == atomic_number as nat,
            n >= 1,
            electrons_remaining == 0 || electrons_remaining as nat + 2 * (n as nat - 1) <= z,
            out@ == join(done),
            started == (done.len() > 0),
            done + tokens_from(n as nat, electrons_remaining as nat) == tokens_from(1, z),
        decreases electrons_remaining,
    {
        let ghost before = electrons_remaining as nat;
        assert(z <= u32::MAX);
        assert(level_capacity(n as nat) >= 2);
        let level = EnergyLevel::new(n, &mut electrons_remaining);
        started = level.append_tokens(&mut out, started, Ghost(done));
        proof {
            let lt = level_tokens(n as nat, shell_types(n as nat), level_fill(shell_types(n as nat), before));
            assert(tokens_from(n as nat, before) == lt + tokens_from(n as nat + 1, electrons_remaining as nat));
            assert(done + tokens_from(n as nat, before) =~= (done + lt) + tokens_from(n as nat + 1, electrons_remaining as nat));
            done = done + lt;
        }
        n = n + 1;
    }
    assert(done + tokens_from(n as nat, 0) =~= done);
    out
}

/// The ground-state configuration of the element whose symbol is `element`,
/// or `None` where no element has that symbol.
pub fn get_electron_configuration(element: &str) -> (r: Option<String>)
    ensures
        match r {
            Some(text) => exists|z: u32|
                1 <= z <= ELEMENT_COUNT && element_symbol(z) == element@
                    && (forall|y: u32| 1 <= y < z ==> element_symbol(y) != element@)
                    && text@ == configuration_text(z as nat),
            None => forall|z: u32| 1 <= z <= ELEMENT_COUNT ==> element_symbol(z) != element@,
        },
{
    match atomic_number(element) {
        Some(z) => Some(electron_configuration(z)),
        None => None,
    }
}

} // verus!
