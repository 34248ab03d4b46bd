//! The message log and the texts the core writes to it.
//!
//! The log is an append-only sequence of `(text, color)` entries.  Every
//! user-facing failure of the core surfaces exclusively through it.  Message
//! texts are built here from verified string concatenation and a verified
//! decimal formatter, so each log contract pins the exact text down.

use vstd::prelude::*;
use vstd::string::StringExecFns;

use crate::color::Color;

verus! {

/// The character for a single decimal digit.
pub open spec fn digit_char(d: nat) -> char
    recommends
        d < 10,
{
    if d == 0 {
        '0'
    } else if d == 1 {
        '1'
    } else if d == 2 {
        '2'
    } else if d == 3 {
        '3'
    } else if d == 4 {
        '4'
    } else if d == 5 {
        '5'
    } else if d == 6 {
        '6'
    } else if d == 7 {
        '7'
    } else if d == 8 {
        '8'
    } else {
        '9'
    }
}

/// The decimal digits of `n`, most significant first.
pub open spec fn spec_digits(n: nat) -> Seq<char>
    decreases n,
{
    if n < 10 {
        seq![digit_char(n)]
    } else {
        spec_digits(n / 10).push(digit_char(n % 10))
    }
}

/// The one-character string for digit `d`.
fn digit_str(d: i32) -> (s: &'static str)
    requires
        0 <= d < 10,
    ensures
        s@ == seq![digit_char(d as nat)],
{
    proof {
        reveal_strlit("0");
        reveal_strlit("1");
        reveal_strlit("2");
        reveal_strlit("3");
        reveal_strlit("4");
        reveal_strlit("5");
        reveal_strlit("6");
        reveal_strlit("7");
        reveal_strlit("8");
        reveal_strlit("9");
    }
    match d {
        0 => "0",
        1 => "1",
        2 => "2",
        3 => "3",
        4 => "4",
        5 => "5",
        6 => "6",
        7 => "7",
        8 => "8",
        _ => "9",
    }
}

/// The decimal rendering of the non-negative number `n`.
pub fn decimal_string(n: i32) -> (s: String)
    requires
        0 <= n,
    ensures
        s@ == spec_digits(n as nat),
    decreases n,
{
    if n < 10 {
        String::from_str(digit_str(n))
    } else {
        let mut s = decimal_string(n / 10);
        s.append(digit_str(n % 10));
        proof {
            assert(s@ =~= spec_digits((n / 10) as nat).push(digit_char((n % 10) as nat)));
        }
        s
    }
}

/// The message log: an ordered, append-only sequence of colored texts,
/// rendered most-recent-first by the presentation layer.
pub struct Messages {
    pub list: Vec<(String, Color)>,
}

impl View for Messages {
    type V = Seq<(Seq<char>, Color)>;

    open spec fn view(&self) -> Seq<(Seq<char>, Color)> {
        self.list@.map(|i: int, m: (String, Color)| (m.0@, m.1))
    }
}

impl Messages {
    /// An empty log.
    pub fn new() -> (m: Messages)
        ensures
            m@ == Seq::<(Seq<char>, Color)>::empty(),
    {
        let m = Messages { list: Vec::new() };
        proof {
            assert(m@ =~= Seq::<(Seq<char>, Color)>::empty());
        }
        m
    }

    /// Append one message; every earlier entry is unchanged.
    pub fn add(&mut self, text: String, color: Color)
        ensures
            final(self)@ == old(self)@.push((text@, color)),
    {
        let ghost t = text@;
        self.list.push((text, color));
        proof {
            assert(final(self)@ =~= old(self)@.push((t, color)));
        }
    }

    /// The number of messages logged so far.
    pub fn len(&self) -> (n: usize)
        ensures
            n == self@.len(),
    {
        self.list.len()
    }

    /// The `i`-th oldest message.
    pub fn get(&self, i: usize) -> (m: &(String, Color))
        requires
            i < self@.len(),
        ensures
            (m.0@, m.1) == self@[i as int],
    {
        &self.list[i]
    }
}

/// "<attacker> attacks <target> for <damage> hit points"
pub open spec fn attack_hit_text(attacker: Seq<char>, target: Seq<char>, damage: int) -> Seq<
    char,
> {
    attacker + " attacks "@ + target + " for "@ + spec_digits(damage as nat) + " hit points"@
}

/// Build the text of a landed attack.
pub fn attack_hit_msg(attacker: &String, target: &String, damage: i32) -> (s: String)
    requires
        0 <= damage,
    ensures
        s@ == attack_hit_text(attacker@, target@, damage as int),
{
    let mut s = attacker.clone();
    s.append(" attacks ");
    s.append(target.as_str());
    s.append(" for ");
    let d = decimal_string(damage);
    s.append(d.as_str());
    s.append(" hit points");
    s
}

/// "<attacker> attacks <target> but it has no effect!"
pub open spec fn attack_no_effect_text(attacker: Seq<char>, target: Seq<char>) -> Seq<char> {
    attacker + " attacks "@ + target + " but it has no effect!"@
}

/// Build the text of an attack that dealt no damage.
pub fn attack_no_effect_msg(attacker: &String, target: &String) -> (s: String)
    ensures
        s@ == attack_no_effect_text(attacker@, target@),
{
    let mut s = attacker.clone();
    s.append(" attacks ");
    s.append(target.as_str());
    s.append(" but it has no effect!");
    s
}

/// "<name> died!"
pub open spec fn died_text(name: Seq<char>) -> Seq<char> {
    name + " died!"@
}

/// Build the text of a monster's death notice.
pub fn died_msg(name: &String) -> (s: String)
    ensures
        s@ == died_text(name@),
{
    let mut s = name.clone();
    s.append(" died!");
    s
}

/// "remains of <name>"
pub open spec fn remains_text(name: Seq<char>) -> Seq<char> {
    "remains of "@ + name
}

/// Build the name a corpse is renamed to.
pub fn remains_name(name: &String) -> (s: String)
    ensures
        s@ == remains_text(name@),
{
    let mut s = String::from_str("remains of ");
    s.append(name.as_str());
    s
}

/// "Your inventory is full, cannot pick up <name>."
pub open spec fn inventory_full_text(name: Seq<char>) -> Seq<char> {
    "Your inventory is full, cannot pick up "@ + name + "."@
}

/// Build the text of a failed pickup.
pub fn inventory_full_msg(name: &String) -> (s: String)
    ensures
        s@ == inventory_full_text(name@),
{
    let mut s = String::from_str("Your inventory is full, cannot pick up ");
    s.append(name.as_str());
    s.append(".");
    s
}

/// "You picked up a <name>!"
pub open spec fn picked_up_text(name: Seq<char>) -> Seq<char> {
    "You picked up a "@ + name + "!"@
}

/// Build the text of a successful pickup.
pub fn picked_up_msg(name: &String) -> (s: String)
    ensures
        s@ == picked_up_text(name@),
{
    let mut s = String::from_str("You picked up a ");
    s.append(name.as_str());
    s.append("!");
    s
}

/// "The <name> is no longer confused!"
pub open spec fn no_longer_confused_text(name: Seq<char>) -> Seq<char> {
    "The "@ + name + " is no longer confused!"@
}

/// Build the text logged when confusion wears off.
pub fn no_longer_confused_msg(name: &String) -> (s: String)
    ensures
        s@ == no_longer_confused_text(name@),
{
    let mut s = String::from_str("The ");
    s.append(name.as_str());
    s.append(" is no longer confused!");
    s
}

/// "<name> looks confused"
pub open spec fn looks_confused_text(name: Seq<char>) -> Seq<char> {
    name + " looks confused"@
}

/// Build the text logged when a monster is confused.
pub fn looks_confused_msg(name: &String) -> (s: String)
    ensures
        s@ == looks_confused_text(name@),
{
    let mut s = name.clone();
    s.append(" looks confused");
    s
}

/// "A lightning bolt strikes the <name> with a loud thunder! for <damage> hit points."
pub open spec fn lightning_text(name: Seq<char>, damage: int) -> Seq<char> {
    "A lightning bolt strikes the "@ + name + " with a loud thunder! for "@ + spec_digits(
        damage as nat,
    ) + " hit points."@
}

/// Build the text of a lightning strike.
pub fn lightning_msg(name: &String, damage: i32) -> (s: String)
    requires
        0 <= damage,
    ensures
        s@ == lightning_text(name@, damage as int),
{
    let mut s = String::from_str("A lightning bolt strikes the ");
    s.append(name.as_str());
    s.append(" with a loud thunder! for ");
    let d = decimal_string(damage);
    s.append(d.as_str());
    s.append(" hit points.");
    s
}

/// "The <name> cannot be used."
pub open spec fn cannot_use_text(name: Seq<char>) -> Seq<char> {
    "The "@ + name + " cannot be used."@
}

/// Build the text logged when a non-item is selected for use.
pub fn cannot_use_msg(name: &String) -> (s: String)
    ensures
        s@ == cannot_use_text(name@),
{
    let mut s = String::from_str("The ");
    s.append(name.as_str());
    s.append(" cannot be used.");
    s
}

} // verus!
