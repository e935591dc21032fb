//! Token symbols. A symbol is held as a `String`; the platform knows its
//! native token `XLM` and a simulated USDC, which the pool spells `USDCSIM`
//! and the batch and validation rules spell `USDC-SIM`.

use vstd::prelude::*;

verus! {

/// Characters of the native token's symbol.
pub open spec fn xlm_chars() -> Seq<char> {
    seq!['X', 'L', 'M']
}

/// Characters of the pool's simulated USDC symbol.
pub open spec fn usdcsim_chars() -> Seq<char> {
    seq!['U', 'S', 'D', 'C', 'S', 'I', 'M']
}

/// Characters of the hyphenated simulated USDC symbol.
pub open spec fn usdc_dash_sim_chars() -> Seq<char> {
    seq!['U', 'S', 'D', 'C', '-', 'S', 'I', 'M']
}

/// Characters of the plain USDC symbol.
pub open spec fn usdc_chars() -> Seq<char> {
    seq!['U', 'S', 'D', 'C']
}

/// Builds the symbol `XLM`.
pub fn xlm_symbol() -> (s: String)
    ensures
        s@ == xlm_chars(),
{
    proof {
        reveal_strlit("XLM");
    }
    String::from_str("XLM")
}

/// Builds the symbol `USDCSIM`.
pub fn usdcsim_symbol() -> (s: String)
    ensures
        s@ == usdcsim_chars(),
{
    proof {
        reveal_strlit("USDCSIM");
    }
    String::from_str("USDCSIM")
}

/// Builds the symbol `USDC-SIM`.
pub fn usdc_dash_sim_symbol() -> (s: String)
    ensures
        s@ == usdc_dash_sim_chars(),
{
    proof {
        reveal_strlit("USDC-SIM");
    }
    String::from_str("USDC-SIM")
}

/// Builds the symbol `USDC`.
pub fn usdc_symbol() -> (s: String)
    ensures
        s@ == usdc_chars(),
{
    proof {
        reveal_strlit("USDC");
    }
    String::from_str("USDC")
}

/// Whether `s` is the symbol `XLM`.
pub fn is_xlm(s: &String) -> (r: bool)
    ensures
        r == (s@ == xlm_chars()),
{
    let x = xlm_symbol();
    *s == x
}

/// Whether `s` is the symbol `USDCSIM`.
pub fn is_usdcsim(s: &String) -> (r: bool)
    ensures
        r == (s@ == usdcsim_chars()),
{
    let x = usdcsim_symbol();
    *s == x
}

/// Whether `s` is the symbol `USDC-SIM`.
pub fn is_usdc_dash_sim(s: &String) -> (r: bool)
    ensures
        r == (s@ == usdc_dash_sim_chars()),
{
    let x = usdc_dash_sim_symbol();
    *s == x
}

/// Whether two symbols are the same.
pub fn same_symbol(a: &String, b: &String) -> (r: bool)
    ensures
        r == (a@ == b@),
{
    *a == *b
}

} // verus!
