//! Where a server is: its row in the location tables (the map coordinates of each
//! row live with the drawing code), and the row of a country.

use vstd::prelude::*;
use crate::selection::KnownServer;
use crate::text::{chars_of, chars_eq, contains_chars, lower_chars, upper_chars, lower_seq, upper_seq, seq_contains};
use crate::ping::first_n;

verus! {

/// Rows of the server table.
pub const SERVER_ROWS: usize = 37;

/// Rows of the name table.
pub const NAME_ROWS: usize = 23;

/// Rows of the country table.
pub const COUNTRY_ROWS: usize = 65;

/// A row of one of the two location tables.
#[derive(Clone, Copy, PartialEq, Eq, Structural, Debug)]
pub enum GeoRow {
    /// Found by the server's token (row of the server table).
    Server(usize),
    /// Found by a keyword of the server's title (row of the name table).
    Name(usize),
}

/// The location code of a token: its first three characters, in ASCII lower case.
pub open spec fn token_code(token: Seq<char>) -> Seq<char> {
    lower_seq(first_n(token, 3))
}

/// `i` is the first row of the server table with this code.
pub open spec fn first_code_row(code: Seq<char>, i: int) -> bool {
    0 <= i < SERVER_ROWS && server_code(i) == code && forall|j: int|
        0 <= j < i ==> server_code(j) != code
}

/// No row of the server table has this code.
pub open spec fn no_code_row(code: Seq<char>) -> bool {
    forall|j: int| 0 <= j < SERVER_ROWS ==> server_code(j) != code
}

/// `i` is the first row of the name table whose keyword occurs in `title`.
pub open spec fn first_name_row(title: Seq<char>, i: int) -> bool {
    0 <= i < NAME_ROWS && seq_contains(title, name_key(i)) && forall|j: int|
        0 <= j < i ==> !seq_contains(title, name_key(j))
}

/// No keyword of the name table occurs in `title`.
pub open spec fn no_name_row(title: Seq<char>) -> bool {
    forall|j: int| 0 <= j < NAME_ROWS ==> !seq_contains(title, name_key(j))
}

/// `i` is the first row of the country table with this code.
pub open spec fn first_country_row(code: Seq<char>, i: int) -> bool {
    0 <= i < COUNTRY_ROWS && country_code(i) == code && forall|j: int|
        0 <= j < i ==> country_code(j) != code
}

/// The first (up to) three characters of `s`.
fn head3(s: &Vec<char>) -> (r: Vec<char>)
    ensures
        r@ == first_n(s@, 3),
{
    let mut r: Vec<char> = Vec::new();
    let mut i: usize = 0;
    while i < s.len() && i < 3
        invariant
            i <= s.len(),
            i <= 3,
            r@ == s@.take(i as int),
        decreases 3 - i,
    {
        r.push(s[i]);
        assert(r@ =~= s@.take(i + 1));
        i = i + 1;
    }
    assert(r@ =~= first_n(s@, 3));
    r
}

/// Where a server is: the first row of the server table whose code is the first
/// three letters of the server's token (ignoring ASCII case), otherwise the first
/// row of the name table whose keyword occurs in the server's title (ignoring ASCII
/// case); with the flag of that row. `None` when neither table knows the server.
pub fn server_geo(s: &KnownServer) -> (r: Option<(GeoRow, &'static str)>)
    ensures
        ({
            let code = token_code(s.token@);
            let title = lower_seq(s.title@);
            match r {
                Some((GeoRow::Server(i), flag)) => first_code_row(code, i as int) && flag@ == server_flag(i as int),
                Some((GeoRow::Name(i), flag)) => no_code_row(code) && first_name_row(title, i as int) && flag@ == name_flag(i as int),
                None => no_code_row(code) && no_name_row(title),
            }
        }),
        r matches Some((_, flag)) ==> has_flag(flag@),
{
    let token = chars_of(s.token.as_str());
    let head = head3(&token);
    let code = lower_chars(&head);
    let mut i: usize = 0;
    while i < SERVER_ROWS
        invariant
            i <= SERVER_ROWS,
            code@ == token_code(s.token@),
            forall|j: int| 0 <= j < i ==> server_code(j) != code@,
        decreases SERVER_ROWS - i,
    {
        let row = chars_of(server_code_str(i));
        if chars_eq(&row, &code) {
            proof {
                crate::laws::law_server_flags_are_embedded();
            }
            return Some((GeoRow::Server(i), server_flag_str(i)));
        }
        i = i + 1;
    }
    let title = lower_chars(&chars_of(s.title.as_str()));
    let mut k: usize = 0;
    while k < NAME_ROWS
        invariant
            k <= NAME_ROWS,
            title@ == lower_seq(s.title@),
            no_code_row(token_code(s.token@)),
            forall|j: int| 0 <= j < k ==> !seq_contains(title@, name_key(j)),
        decreases NAME_ROWS - k,
    {
        let key = chars_of(name_key_str(k));
        if contains_chars(&title, &key) {
            proof {
                crate::laws::law_server_flags_are_embedded();
            }
            return Some((GeoRow::Name(k), name_flag_str(k)));
        }
        k = k + 1;
    }
    None
}

/// The row of the country table for an ISO country code, compared in ASCII upper
/// case; `None` for a country the table does not hold.
pub fn country_row(iso: &str) -> (r: Option<usize>)
    ensures
        match r {
            Some(i) => first_country_row(upper_seq(iso@), i as int),
            None => forall|j: int| 0 <= j < COUNTRY_ROWS ==> country_code(j) != upper_seq(iso@),
        },
{
    country_row_of(&chars_of(iso))
}

fn country_row_of(name: &Vec<char>) -> (r: Option<usize>)
    ensures
        match r {
            Some(i) => first_country_row(upper_seq(name@), i as int),
            None => forall|j: int| 0 <= j < COUNTRY_ROWS ==> country_code(j) != upper_seq(name@),
        },
{
    let code = upper_chars(name);
    let mut i: usize = 0;
    while i < COUNTRY_ROWS
        invariant
            i <= COUNTRY_ROWS,
            code@ == upper_seq(name@),
            forall|j: int| 0 <= j < i ==> country_code(j) != code@,
        decreases COUNTRY_ROWS - i,
    {
        let row = chars_of(country_code_str(i));
        if chars_eq(&row, &code) {
            return Some(i);
        }
        i = i + 1;
    }
    None
}

/// Every unit is an ASCII character.
pub open spec fn ascii_units(units: Seq<u16>) -> bool {
    forall|k: int| 0 <= k < units.len() ==> units[k] < 128
}

/// The characters of ASCII units.
pub open spec fn unit_chars(units: Seq<u16>) -> Seq<char> {
    units.map_values(|u: u16| (u as u8) as char)
}

/// The country row of the region Windows reports: `units` holds its name in UTF-16,
/// `n` is the count of units written, the terminating zero included. No region
/// (`n <= 1`) gives `None`, and so does a name with a unit outside ASCII, which no
/// country code (all ASCII) can match once decoded.
pub fn region_country(units: &[u16], n: i32) -> (r: Option<usize>)
    requires
        n <= units@.len() + 1,
    ensures
        n <= 1 ==> r is None,
        n > 1 && !ascii_units(units@.take(n - 1)) ==> r is None,
        n > 1 && ascii_units(units@.take(n - 1)) ==> match r {
            Some(i) => first_country_row(upper_seq(unit_chars(units@.take(n - 1))), i as int),
            None => forall|j: int| 0 <= j < COUNTRY_ROWS ==> country_code(j) != upper_seq(unit_chars(units@.take(n - 1))),
        },
{
    if n <= 1 {
        return None;
    }
    let len = (n - 1) as usize;
    let mut name: Vec<char> = Vec::new();
    let mut k: usize = 0;
    while k < len
        invariant
            k <= len,
            len == n - 1,
            len <= units@.len(),
            ascii_units(units@.take(k as int)),
            name@ == unit_chars(units@.take(k as int)),
        decreases len - k,
    {
        let u = units[k];
        if u >= 128 {
            assert(!ascii_units(units@.take(n - 1))) by {
                assert(units@.take(n - 1)[k as int] == u);
            }
            return None;
        }
        let c = (u as u8) as char;
        name.push(c);
        proof {
            assert(units@.take(k + 1) =~= units@.take(k as int).push(u));
            assert(name@ =~= unit_chars(units@.take(k + 1)));
        }
        k = k + 1;
    }
    assert(units@.take(len as int) =~= units@.take(n - 1));
    country_row_of(&name)
}

/// Location code of row `i` of the server table (the first three letters of a server token).
pub open spec fn server_code(i: int) -> Seq<char> {
    if i == 0 {
        "ams"@
    } else if i == 1 {
        "gbr"@
    } else if i == 2 {
        "gen"@
    } else if i == 3 {
        "gme"@
    } else if i == 4 {
        "gsg"@
    } else if i == 5 {
        "gtk"@
    } else if i == 6 {
        "gue"@
    } else if i == 7 {
        "las"@
    } else if i == 8 {
        "gru"@
    } else if i == 9 {
        "hel"@
    } else if i == 10 {
        "ruh"@
    } else if i == 11 {
        "bah"@
    } else if i == 12 {
        "dxb"@
    } else if i == 13 {
        "sin"@
    } else if i == 14 {
        "nrt"@
    } else if i == 15 {
        "hnd"@
    } else if i == 16 {
        "icn"@
    } else if i == 17 {
        "hkg"@
    } else if i == 18 {
        "tpe"@
    } else if i == 19 {
        "syd"@
    } else if i == 20 {
        "mel"@
    } else if i == 21 {
        "ord"@
    } else if i == 22 {
        "lax"@
    } else if i == 23 {
        "dfw"@
    } else if i == 24 {
        "iad"@
    } else if i == 25 {
        "mia"@
    } else if i == 26 {
        "sea"@
    } else if i == 27 {
        "atl"@
    } else if i == 28 {
        "yyz"@
    } else if i == 29 {
        "mex"@
    } else if i == 30 {
        "eze"@
    } else if i == 31 {
        "scl"@
    } else if i == 32 {
        "fra"@
    } else if i == 33 {
        "lhr"@
    } else if i == 34 {
        "cdg"@
    } else if i == 35 {
        "bom"@
    } else if i == 36 {
        "jnb"@
    } else {
        Seq::empty()
    }
}

/// Flag (ISO country code) of row `i` of the server table.
pub open spec fn server_flag(i: int) -> Seq<char> {
    if i == 0 {
        "nl"@
    } else if i == 1 {
        "br"@
    } else if i == 2 {
        "fi"@
    } else if i == 3 {
        "sa"@
    } else if i == 4 {
        "sg"@
    } else if i == 5 {
        "jp"@
    } else if i == 6 {
        "us"@
    } else if i == 7 {
        "us"@
    } else if i == 8 {
        "br"@
    } else if i == 9 {
        "fi"@
    } else if i == 10 {
        "sa"@
    } else if i == 11 {
        "bh"@
    } else if i == 12 {
        "ae"@
    } else if i == 13 {
        "sg"@
    } else if i == 14 {
        "jp"@
    } else if i == 15 {
        "jp"@
    } else if i == 16 {
        "kr"@
    } else if i == 17 {
        "hk"@
    } else if i == 18 {
        "tw"@
    } else if i == 19 {
        "au"@
    } else if i == 20 {
        "au"@
    } else if i == 21 {
        "us"@
    } else if i == 22 {
        "us"@
    } else if i == 23 {
        "us"@
    } else if i == 24 {
        "us"@
    } else if i == 25 {
        "us"@
    } else if i == 26 {
        "us"@
    } else if i == 27 {
        "us"@
    } else if i == 28 {
        "ca"@
    } else if i == 29 {
        "mx"@
    } else if i == 30 {
        "ar"@
    } else if i == 31 {
        "cl"@
    } else if i == 32 {
        "de"@
    } else if i == 33 {
        "gb"@
    } else if i == 34 {
        "fr"@
    } else if i == 35 {
        "in"@
    } else if i == 36 {
        "za"@
    } else {
        Seq::empty()
    }
}

/// Keyword of row `i` of the name table, looked for in a server's title.
pub open spec fn name_key(i: int) -> Seq<char> {
    if i == 0 {
        "netherlands"@
    } else if i == 1 {
        "brazil"@
    } else if i == 2 {
        "finland"@
    } else if i == 3 {
        "saudi"@
    } else if i == 4 {
        "bahrain"@
    } else if i == 5 {
        "singapore"@
    } else if i == 6 {
        "japan"@
    } else if i == 7 {
        "korea"@
    } else if i == 8 {
        "hong kong"@
    } else if i == 9 {
        "taiwan"@
    } else if i == 10 {
        "australia"@
    } else if i == 11 {
        "usa - east"@
    } else if i == 12 {
        "usa - southwest"@
    } else if i == 13 {
        "usa - central"@
    } else if i == 14 {
        "usa"@
    } else if i == 15 {
        "canada"@
    } else if i == 16 {
        "mexico"@
    } else if i == 17 {
        "argentina"@
    } else if i == 18 {
        "chile"@
    } else if i == 19 {
        "germany"@
    } else if i == 20 {
        "france"@
    } else if i == 21 {
        "india"@
    } else if i == 22 {
        "south africa"@
    } else {
        Seq::empty()
    }
}

/// Flag (ISO country code) of row `i` of the name table.
pub open spec fn name_flag(i: int) -> Seq<char> {
    if i == 0 {
        "nl"@
    } else if i == 1 {
        "br"@
    } else if i == 2 {
        "fi"@
    } else if i == 3 {
        "sa"@
    } else if i == 4 {
        "bh"@
    } else if i == 5 {
        "sg"@
    } else if i == 6 {
        "jp"@
    } else if i == 7 {
        "kr"@
    } else if i == 8 {
        "hk"@
    } else if i == 9 {
        "tw"@
    } else if i == 10 {
        "au"@
    } else if i == 11 {
        "us"@
    } else if i == 12 {
        "us"@
    } else if i == 13 {
        "us"@
    } else if i == 14 {
        "us"@
    } else if i == 15 {
        "ca"@
    } else if i == 16 {
        "mx"@
    } else if i == 17 {
        "ar"@
    } else if i == 18 {
        "cl"@
    } else if i == 19 {
        "de"@
    } else if i == 20 {
        "fr"@
    } else if i == 21 {
        "in"@
    } else if i == 22 {
        "za"@
    } else {
        Seq::empty()
    }
}

/// ISO code of row `i` of the country table.
pub open spec fn country_code(i: int) -> Seq<char> {
    if i == 0 {
        "SA"@
    } else if i == 1 {
        "AE"@
    } else if i == 2 {
        "KW"@
    } else if i == 3 {
        "QA"@
    } else if i == 4 {
        "BH"@
    } else if i == 5 {
        "OM"@
    } else if i == 6 {
        "EG"@
    } else if i == 7 {
        "JO"@
    } else if i == 8 {
        "IQ"@
    } else if i == 9 {
        "LB"@
    } else if i == 10 {
        "SY"@
    } else if i == 11 {
        "YE"@
    } else if i == 12 {
        "PS"@
    } else if i == 13 {
        "MA"@
    } else if i == 14 {
        "DZ"@
    } else if i == 15 {
        "TN"@
    } else if i == 16 {
        "LY"@
    } else if i == 17 {
        "SD"@
    } else if i == 18 {
        "TR"@
    } else if i == 19 {
        "IR"@
    } else if i == 20 {
        "PK"@
    } else if i == 21 {
        "IN"@
    } else if i == 22 {
        "US"@
    } else if i == 23 {
        "CA"@
    } else if i == 24 {
        "MX"@
    } else if i == 25 {
        "BR"@
    } else if i == 26 {
        "AR"@
    } else if i == 27 {
        "CL"@
    } else if i == 28 {
        "GB"@
    } else if i == 29 {
        "IE"@
    } else if i == 30 {
        "FR"@
    } else if i == 31 {
        "DE"@
    } else if i == 32 {
        "ES"@
    } else if i == 33 {
        "PT"@
    } else if i == 34 {
        "IT"@
    } else if i == 35 {
        "NL"@
    } else if i == 36 {
        "BE"@
    } else if i == 37 {
        "CH"@
    } else if i == 38 {
        "AT"@
    } else if i == 39 {
        "SE"@
    } else if i == 40 {
        "NO"@
    } else if i == 41 {
        "FI"@
    } else if i == 42 {
        "DK"@
    } else if i == 43 {
        "PL"@
    } else if i == 44 {
        "CZ"@
    } else if i == 45 {
        "GR"@
    } else if i == 46 {
        "RO"@
    } else if i == 47 {
        "UA"@
    } else if i == 48 {
        "RU"@
    } else if i == 49 {
        "JP"@
    } else if i == 50 {
        "KR"@
    } else if i == 51 {
        "CN"@
    } else if i == 52 {
        "TW"@
    } else if i == 53 {
        "HK"@
    } else if i == 54 {
        "SG"@
    } else if i == 55 {
        "MY"@
    } else if i == 56 {
        "TH"@
    } else if i == 57 {
        "VN"@
    } else if i == 58 {
        "PH"@
    } else if i == 59 {
        "ID"@
    } else if i == 60 {
        "AU"@
    } else if i == 61 {
        "NZ"@
    } else if i == 62 {
        "ZA"@
    } else if i == 63 {
        "NG"@
    } else if i == 64 {
        "KE"@
    } else {
        Seq::empty()
    }
}

/// Row `i` of the server table's codes.
fn server_code_str(i: usize) -> (s: &'static str)
    requires
        i < 37,
    ensures
        s@ == server_code(i as int),
{
    match i {
        0 => "ams",
        1 => "gbr",
        2 => "gen",
        3 => "gme",
        4 => "gsg",
        5 => "gtk",
        6 => "gue",
        7 => "las",
        8 => "gru",
        9 => "hel",
        10 => "ruh",
        11 => "bah",
        12 => "dxb",
        13 => "sin",
        14 => "nrt",
        15 => "hnd",
        16 => "icn",
        17 => "hkg",
        18 => "tpe",
        19 => "syd",
        20 => "mel",
        21 => "ord",
        22 => "lax",
        23 => "dfw",
        24 => "iad",
        25 => "mia",
        26 => "sea",
        27 => "atl",
        28 => "yyz",
        29 => "mex",
        30 => "eze",
        31 => "scl",
        32 => "fra",
        33 => "lhr",
        34 => "cdg",
        35 => "bom",
        _ => "jnb",
    }
}

/// Row `i` of the server table's flags.
fn server_flag_str(i: usize) -> (s: &'static str)
    requires
        i < 37,
    ensures
        s@ == server_flag(i as int),
{
    match i {
        0 => "nl",
        1 => "br",
        2 => "fi",
        3 => "sa",
        4 => "sg",
        5 => "jp",
        6 => "us",
        7 => "us",
        8 => "br",
        9 => "fi",
        10 => "sa",
        11 => "bh",
        12 => "ae",
        13 => "sg",
        14 => "jp",
        15 => "jp",
        16 => "kr",
        17 => "hk",
        18 => "tw",
        19 => "au",
        20 => "au",
        21 => "us",
        22 => "us",
        23 => "us",
        24 => "us",
        25 => "us",
        26 => "us",
        27 => "us",
        28 => "ca",
        29 => "mx",
        30 => "ar",
        31 => "cl",
        32 => "de",
        33 => "gb",
        34 => "fr",
        35 => "in",
        _ => "za",
    }
}

/// Row `i` of the name table's keywords.
fn name_key_str(i: usize) -> (s: &'static str)
    requires
        i < 23,
    ensures
        s@ == name_key(i as int),
{
    match i {
        0 => "netherlands",
        1 => "brazil",
        2 => "finland",
        3 => "saudi",
        4 => "bahrain",
        5 => "singapore",
        6 => "japan",
        7 => "korea",
        8 => "hong kong",
        9 => "taiwan",
        10 => "australia",
        11 => "usa - east",
        12 => "usa - southwest",
        13 => "usa - central",
        14 => "usa",
        15 => "canada",
        16 => "mexico",
        17 => "argentina",
        18 => "chile",
        19 => "germany",
        20 => "france",
        21 => "india",
        _ => "south africa",
    }
}

/// Row `i` of the name table's flags.
fn name_flag_str(i: usize) -> (s: &'static str)
    requires
        i < 23,
    ensures
        s@ == name_flag(i as int),
{
    match i {
        0 => "nl",
        1 => "br",
        2 => "fi",
        3 => "sa",
        4 => "bh",
        5 => "sg",
        6 => "jp",
        7 => "kr",
        8 => "hk",
        9 => "tw",
        10 => "au",
        11 => "us",
        12 => "us",
        13 => "us",
        14 => "us",
        15 => "ca",
        16 => "mx",
        17 => "ar",
        18 => "cl",
        19 => "de",
        20 => "fr",
        21 => "in",
        _ => "za",
    }
}

/// Row `i` of the country table's codes.
fn country_code_str(i: usize) -> (s: &'static str)
    requires
        i < 65,
    ensures
        s@ == country_code(i as int),
{
    match i {
        0 => "SA",
        1 => "AE",
        2 => "KW",
        3 => "QA",
        4 => "BH",
        5 => "OM",
        6 => "EG",
        7 => "JO",
        8 => "IQ",
        9 => "LB",
        10 => "SY",
        11 => "YE",
        12 => "PS",
        13 => "MA",
        14 => "DZ",
        15 => "TN",
        16 => "LY",
        17 => "SD",
        18 => "TR",
        19 => "IR",
        20 => "PK",
        21 => "IN",
        22 => "US",
        23 => "CA",
        24 => "MX",
        25 => "BR",
        26 => "AR",
        27 => "CL",
        28 => "GB",
        29 => "IE",
        30 => "FR",
        31 => "DE",
        32 => "ES",
        33 => "PT",
        34 => "IT",
        35 => "NL",
        36 => "BE",
        37 => "CH",
        38 => "AT",
        39 => "SE",
        40 => "NO",
        41 => "FI",
        42 => "DK",
        43 => "PL",
        44 => "CZ",
        45 => "GR",
        46 => "RO",
        47 => "UA",
        48 => "RU",
        49 => "JP",
        50 => "KR",
        51 => "CN",
        52 => "TW",
        53 => "HK",
        54 => "SG",
        55 => "MY",
        56 => "TH",
        57 => "VN",
        58 => "PH",
        59 => "ID",
        60 => "AU",
        61 => "NZ",
        62 => "ZA",
        63 => "NG",
        _ => "KE",
    }
}

/// Number of embedded flag images.
pub const FLAG_ROWS: usize = 26;

/// Country code of embedded flag image `i`.
pub open spec fn flag_code(i: int) -> Seq<char> {
    if i == 0 {
        "nl"@
    } else if i == 1 {
        "br"@
    } else if i == 2 {
        "fi"@
    } else if i == 3 {
        "sa"@
    } else if i == 4 {
        "sg"@
    } else if i == 5 {
        "jp"@
    } else if i == 6 {
        "us"@
    } else if i == 7 {
        "au"@
    } else if i == 8 {
        "tw"@
    } else if i == 9 {
        "kr"@
    } else if i == 10 {
        "de"@
    } else if i == 11 {
        "gb"@
    } else if i == 12 {
        "fr"@
    } else if i == 13 {
        "ca"@
    } else if i == 14 {
        "mx"@
    } else if i == 15 {
        "ar"@
    } else if i == 16 {
        "cl"@
    } else if i == 17 {
        "in"@
    } else if i == 18 {
        "za"@
    } else if i == 19 {
        "hk"@
    } else if i == 20 {
        "bh"@
    } else if i == 21 {
        "ae"@
    } else if i == 22 {
        "kw"@
    } else if i == 23 {
        "qa"@
    } else if i == 24 {
        "eg"@
    } else if i == 25 {
        "tr"@
    } else {
        Seq::empty()
    }
}

/// A flag image is embedded for this country code.
pub open spec fn has_flag(iso: Seq<char>) -> bool {
    exists|i: int| 0 <= i < FLAG_ROWS && #[trigger] flag_code(i) == iso
}

/// Code of embedded flag image `i`.
fn flag_code_str(i: usize) -> (s: &'static str)
    requires
        i < FLAG_ROWS,
    ensures
        s@ == flag_code(i as int),
{
    match i {
        0 => "nl",
        1 => "br",
        2 => "fi",
        3 => "sa",
        4 => "sg",
        5 => "jp",
        6 => "us",
        7 => "au",
        8 => "tw",
        9 => "kr",
        10 => "de",
        11 => "gb",
        12 => "fr",
        13 => "ca",
        14 => "mx",
        15 => "ar",
        16 => "cl",
        17 => "in",
        18 => "za",
        19 => "hk",
        20 => "bh",
        21 => "ae",
        22 => "kw",
        23 => "qa",
        24 => "eg",
        _ => "tr",
    }
}

/// The embedded flag image of a country code (two lower-case letters, compared
/// exactly): its row, `None` for a country without an image.
pub fn flag(iso: &str) -> (r: Option<usize>)
    ensures
        match r {
            Some(i) => i < FLAG_ROWS && flag_code(i as int) == iso@,
            None => !has_flag(iso@),
        },
{
    let code = chars_of(iso);
    let mut i: usize = 0;
    while i < FLAG_ROWS
        invariant
            i <= FLAG_ROWS,
            code@ == iso@,
            forall|j: int| 0 <= j < i ==> flag_code(j) != iso@,
        decreases FLAG_ROWS - i,
    {
        let row = chars_of(flag_code_str(i));
        if chars_eq(&row, &code) {
            return Some(i);
        }
        i = i + 1;
    }
    None
}

} // verus!
