//! The lines written to the message log.
use vstd::prelude::*;
use vstd::string::StringExecFns;

verus! {

/// The decimal digit for `d` in 0..10.
pub open spec fn digit_char(d: int) -> char {
    if d == 0 { '0' } else if d == 1 { '1' } else if d == 2 { '2' } else if d == 3 { '3' }
    else if d == 4 { '4' } else if d == 5 { '5' } else if d == 6 { '6' } else if d == 7 { '7' }
    else if d == 8 { '8' } else { '9' }
}

/// The decimal digits of a natural number, without leading zeros.
pub open spec fn digits(n: nat) -> Seq<char>
    decreases n,
{
    if n < 10 {
        seq![digit_char(n as int)]
    } else {
        digits(n / 10).push(digit_char((n % 10) as int))
    }
}

/// An integer written in decimal, with a leading '-' when negative.
pub open spec fn decimal(n: int) -> Seq<char> {
    if n < 0 {
        seq!['-'] + digits((-n) as nat)
    } else {
        digits(n as nat)
    }
}

/// Relies on `ToString` for `i64` (through its `Display`): the number in
/// decimal, with a leading '-' when negative.
#[verifier::external_body]
fn int_text(n: i64) -> (r: String)
    ensures
        r@ == decimal(n as int),
{
    n.to_string()
}

pub open spec fn pickup_line(item: Seq<char>) -> Seq<char> {
    "You pick up the "@ + item + "."@
}

pub open spec fn unequip_line(item: Seq<char>) -> Seq<char> {
    "You unequip "@ + item + "."@
}

pub open spec fn equip_line(item: Seq<char>) -> Seq<char> {
    "You equip "@ + item
}

pub open spec fn heal_line(item: Seq<char>, amount: int) -> Seq<char> {
    "You use the "@ + item + ", healing "@ + decimal(amount) + " hp."@
}

pub open spec fn confuse_line(item: Seq<char>, mob: Seq<char>) -> Seq<char> {
    "You use "@ + item + " on "@ + mob + ", confusing them."@
}

pub open spec fn damage_line(item: Seq<char>, mob: Seq<char>, amount: int) -> Seq<char> {
    "You use "@ + item + " on "@ + mob + ", inflicting "@ + decimal(amount) + " hp."@
}

pub open spec fn cannot_drop_line(item: Seq<char>) -> Seq<char> {
    "You can not drop "@ + item + " here."@
}

pub open spec fn drop_line(item: Seq<char>) -> Seq<char> {
    "You drop the "@ + item + "."@
}

pub open spec fn descend_line() -> Seq<char> {
    "You descend to the next level, and take a moment to rest."@
}

pub open spec fn welcome_line() -> Seq<char> {
    "Welcome to the Rusty RogueLike"@
}

/// `a`, then `b`, then `c`.
fn join3(a: &str, b: &str, c: &str) -> (r: String)
    ensures
        r@ == a@ + b@ + c@,
{
    let mut s = String::from_str(a);
    s.append(b);
    s.append(c);
    s
}

pub fn pickup_text(item: &String) -> (r: String)
    ensures
        r@ == pickup_line(item@),
{
    join3("You pick up the ", item.as_str(), ".")
}

pub fn unequip_text(item: &String) -> (r: String)
    ensures
        r@ == unequip_line(item@),
{
    join3("You unequip ", item.as_str(), ".")
}

pub fn equip_text(item: &String) -> (r: String)
    ensures
        r@ == equip_line(item@),
{
    let mut s = String::from_str("You equip ");
    s.append(item.as_str());
    s
}

pub fn heal_text(item: &String, amount: u32) -> (r: String)
    ensures
        r@ == heal_line(item@, amount as int),
{
    let mut s = join3("You use the ", item.as_str(), ", healing ");
    let n = int_text(amount as i64);
    s.append(n.as_str());
    s.append(" hp.");
    s
}

pub fn confuse_text(item: &String, mob: &String) -> (r: String)
    ensures
        r@ == confuse_line(item@, mob@),
{
    let mut s = join3("You use ", item.as_str(), " on ");
    s.append(mob.as_str());
    s.append(", confusing them.");
    s
}

pub fn damage_text(item: &String, mob: &String, amount: i32) -> (r: String)
    ensures
        r@ == damage_line(item@, mob@, amount as int),
{
    let mut s = join3("You use ", item.as_str(), " on ");
    s.append(mob.as_str());
    s.append(", inflicting ");
    let n = int_text(amount as i64);
    s.append(n.as_str());
    s.append(" hp.");
    s
}

pub fn cannot_drop_text(item: &String) -> (r: String)
    ensures
        r@ == cannot_drop_line(item@),
{
    join3("You can not drop ", item.as_str(), " here.")
}

pub fn drop_text(item: &String) -> (r: String)
    ensures
        r@ == drop_line(item@),
{
    join3("You drop the ", item.as_str(), ".")
}

pub fn descend_text() -> (r: String)
    ensures
        r@ == descend_line(),
{
    String::from_str("You descend to the next level, and take a moment to rest.")
}

pub fn welcome_text() -> (r: String)
    ensures
        r@ == welcome_line(),
{
    String::from_str("Welcome to the Rusty RogueLike")
}

} // verus!
