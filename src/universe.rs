//! The instrument universes the data provider offers, by display symbol.
use vstd::prelude::*;

verus! {

/// The equities, by symbol.
pub open spec fn stock_symbols() -> Seq<Seq<char>> {
    seq![
        "CICG"@,
        "EQNX"@,
        "KRKG"@,
        "LKPG"@,
        "NLBR"@,
        "PETG"@,
        "POSR"@,
        "TLSG"@,
        "UKIG"@,
        "ZVTG"@,
        "ADPL"@,
        "ADRS2"@,
        "ARNT"@,
        "ATGR"@,
        "AUHR"@,
        "BSQR"@,
        "DDJH"@,
        "DLKV"@,
        "ERNT"@,
        "GRNL"@,
        "HPB"@,
        "HT"@,
        "IG"@,
        "IGH"@,
        "IKBA"@,
        "INGR"@,
        "JDGT"@,
        "JDPL"@,
        "KODT"@,
        "KOEI"@,
        "KRAS"@,
        "KTJV"@,
        "LKPC"@,
        "LKRI"@,
        "MDKA"@,
        "MONP"@,
        "PLAG"@,
        "PODR"@,
        "RIVP"@,
        "SPAN"@,
        "ULPL"@,
        "VLEN"@,
        "ZABA"@,
        "ZB"@,
    ]
}

/// The market indexes, by symbol.
pub open spec fn index_symbols() -> Seq<Seq<char>> {
    seq![
        "SBITOP"@,
        "SBITR"@,
        "ADRPR"@,
        "C10TR"@,
        "CBX"@,
        "CBX10"@,
        "CBXPR"@,
        "CBXTR"@,
    ]
}

/// Every equity symbol.
pub fn all_stocks_symbols() -> (r: Vec<String>)
    ensures
        r@.map_values(|s: String| s@) == stock_symbols(),
{
    let mut r: Vec<String> = Vec::new();
    r.push(String::from_str("CICG"));
    r.push(String::from_str("EQNX"));
    r.push(String::from_str("KRKG"));
    r.push(String::from_str("LKPG"));
    r.push(String::from_str("NLBR"));
    r.push(String::from_str("PETG"));
    r.push(String::from_str("POSR"));
    r.push(String::from_str("TLSG"));
    r.push(String::from_str("UKIG"));
    r.push(String::from_str("ZVTG"));
    r.push(String::from_str("ADPL"));
    r.push(String::from_str("ADRS2"));
    r.push(String::from_str("ARNT"));
    r.push(String::from_str("ATGR"));
    r.push(String::from_str("AUHR"));
    r.push(String::from_str("BSQR"));
    r.push(String::from_str("DDJH"));
    r.push(String::from_str("DLKV"));
    r.push(String::from_str("ERNT"));
    r.push(String::from_str("GRNL"));
    r.push(String::from_str("HPB"));
    r.push(String::from_str("HT"));
    r.push(String::from_str("IG"));
    r.push(String::from_str("IGH"));
    r.push(String::from_str("IKBA"));
    r.push(String::from_str("INGR"));
    r.push(String::from_str("JDGT"));
    r.push(String::from_str("JDPL"));
    r.push(String::from_str("KODT"));
    r.push(String::from_str("KOEI"));
    r.push(String::from_str("KRAS"));
    r.push(String::from_str("KTJV"));
    r.push(String::from_str("LKPC"));
    r.push(String::from_str("LKRI"));
    r.push(String::from_str("MDKA"));
    r.push(String::from_str("MONP"));
    r.push(String::from_str("PLAG"));
    r.push(String::from_str("PODR"));
    r.push(String::from_str("RIVP"));
    r.push(String::from_str("SPAN"));
    r.push(String::from_str("ULPL"));
    r.push(String::from_str("VLEN"));
    r.push(String::from_str("ZABA"));
    r.push(String::from_str("ZB"));
    assert(r@.map_values(|s: String| s@) =~= stock_symbols());
    r
}

/// Every index symbol.
pub fn all_indexes_symbols() -> (r: Vec<String>)
    ensures
        r@.map_values(|s: String| s@) == index_symbols(),
{
    let mut r: Vec<String> = Vec::new();
    r.push(String::from_str("SBITOP"));
    r.push(String::from_str("SBITR"));
    r.push(String::from_str("ADRPR"));
    r.push(String::from_str("C10TR"));
    r.push(String::from_str("CBX"));
    r.push(String::from_str("CBX10"));
    r.push(String::from_str("CBXPR"));
    r.push(String::from_str("CBXTR"));
    assert(r@.map_values(|s: String| s@) =~= index_symbols());
    r
}

} // verus!
