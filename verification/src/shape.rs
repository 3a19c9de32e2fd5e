//! The shape of the macros: what a token and a replacement look like.
//!
//! That a token starts with a backslash and goes on in lower-case letters, and that
//! a replacement holds no backslash and starts with something else than a lower-case
//! letter, is what keeps the passes of the expander from disturbing each other.

use crate::table::{macro_of, macro_table, Macro};
use vstd::prelude::*;

verus! {

/// `c` is one of the letters `a` to `z`.
pub open spec fn is_lowercase(c: char) -> bool {
    'a' <= c && c <= 'z'
}

/// `token` is a backslash followed by one or more lower-case letters.
pub open spec fn is_token(token: Seq<char>) -> bool {
    &&& token.len() >= 2
    &&& token[0] == '\\'
    &&& forall|j: int| 1 <= j < token.len() ==> is_lowercase(#[trigger] token[j])
}

/// `replacement` is not empty, does not start with a lower-case letter, and holds no
/// backslash.
pub open spec fn is_plain(replacement: Seq<char>) -> bool {
    &&& replacement.len() >= 1
    &&& !is_lowercase(replacement[0])
    &&& forall|j: int| 0 <= j < replacement.len() ==> #[trigger] replacement[j] != '\\'
}

/// The token and the replacement of `m` have the shape that the expander relies on.
pub open spec fn well_formed(m: Macro) -> bool {
    is_token(m.token) && is_plain(m.replacement)
}

/// Every macro of `table` is well formed.
pub open spec fn all_well_formed(table: Seq<Macro>) -> bool {
    forall|i: int| 0 <= i < table.len() ==> well_formed(#[trigger] table[i])
}

/// From index `from` on, `s` holds lower-case letters only.
spec fn lowercase_from(s: Seq<char>, from: int) -> bool
    decreases s.len() - from,
{
    if from >= s.len() {
        true
    } else {
        is_lowercase(s[from]) && lowercase_from(s, from + 1)
    }
}

/// From index `from` on, `s` holds no backslash.
spec fn plain_from(s: Seq<char>, from: int) -> bool
    decreases s.len() - from,
{
    if from >= s.len() {
        true
    } else {
        s[from] != '\\' && plain_from(s, from + 1)
    }
}

proof fn lemma_lowercase_from(s: Seq<char>, from: int)
    requires
        0 <= from,
        lowercase_from(s, from),
    ensures
        forall|j: int| from <= j < s.len() ==> is_lowercase(#[trigger] s[j]),
    decreases s.len() - from,
{
    if from < s.len() {
        lemma_lowercase_from(s, from + 1);
    }
}

proof fn lemma_plain_from(s: Seq<char>, from: int)
    requires
        0 <= from,
        plain_from(s, from),
    ensures
        forall|j: int| from <= j < s.len() ==> #[trigger] s[j] != '\\',
    decreases s.len() - from,
{
    if from < s.len() {
        lemma_plain_from(s, from + 1);
    }
}

/// A macro whose token and replacement pass the checks from index to index is well
/// formed.
proof fn lemma_shape_checked(token: &str, replacement: &str)
    requires
        token@.len() >= 2,
        token@[0] == '\\',
        lowercase_from(token@, 1),
        replacement@.len() >= 1,
        !is_lowercase(replacement@[0]),
        plain_from(replacement@, 0),
    ensures
        well_formed(macro_of(token, replacement)),
{
    lemma_lowercase_from(token@, 1);
    lemma_plain_from(replacement@, 0);
}

/// Every macro of the table is well formed.
pub proof fn lemma_macro_table_well_formed()
    ensures
        all_well_formed(macro_table()),
{
    reveal_with_fuel(lowercase_from, 10);
    reveal_with_fuel(plain_from, 81);
    reveal_strlit(r"\aas");
    reveal_strlit("American Astronomical Society Meeting Abstracts");
    lemma_shape_checked(r"\aas", "American Astronomical Society Meeting Abstracts");
    reveal_strlit(r"\aj");
    reveal_strlit("Astronomical Journal");
    lemma_shape_checked(r"\aj", "Astronomical Journal");
    reveal_strlit(r"\actaa");
    reveal_strlit("Acta Astronomica");
    lemma_shape_checked(r"\actaa", "Acta Astronomica");
    reveal_strlit(r"\araa");
    reveal_strlit("Annual Review of Astron and Astrophysis");
    lemma_shape_checked(r"\araa", "Annual Review of Astron and Astrophysis");
    reveal_strlit(r"\apj");
    reveal_strlit("Astrophysical Journal");
    lemma_shape_checked(r"\apj", "Astrophysical Journal");
    reveal_strlit(r"\apjl");
    reveal_strlit("Astrophysical Journal, Letters");
    lemma_shape_checked(r"\apjl", "Astrophysical Journal, Letters");
    reveal_strlit(r"\apjs");
    reveal_strlit("Astrophysical Journal, Supplement");
    lemma_shape_checked(r"\apjs", "Astrophysical Journal, Supplement");
    reveal_strlit(r"\ao");
    reveal_strlit("Applied Optics");
    lemma_shape_checked(r"\ao", "Applied Optics");
    reveal_strlit(r"\apss");
    reveal_strlit("Astrophysics and Space Science");
    lemma_shape_checked(r"\apss", "Astrophysics and Space Science");
    reveal_strlit(r"\aap");
    reveal_strlit("Astronomy and Astrophysics");
    lemma_shape_checked(r"\aap", "Astronomy and Astrophysics");
    reveal_strlit(r"\aapr");
    reveal_strlit("Astronomy and Astrophysics Reviews");
    lemma_shape_checked(r"\aapr", "Astronomy and Astrophysics Reviews");
    reveal_strlit(r"\aaps");
    reveal_strlit("Astronomy and Astrophysics, Supplement");
    lemma_shape_checked(r"\aaps", "Astronomy and Astrophysics, Supplement");
    reveal_strlit(r"\aplett");
    reveal_strlit("Astrophysics Letters");
    lemma_shape_checked(r"\aplett", "Astrophysics Letters");
    reveal_strlit(r"\apspr");
    reveal_strlit("Astrophysics Space Physics Research");
    lemma_shape_checked(r"\apspr", "Astrophysics Space Physics Research");
    reveal_strlit(r"\azh");
    reveal_strlit("Astronomicheskii Zhurnal");
    lemma_shape_checked(r"\azh", "Astronomicheskii Zhurnal");
    reveal_strlit(r"\baas");
    reveal_strlit("Bulletin of the AAS");
    lemma_shape_checked(r"\baas", "Bulletin of the AAS");
    reveal_strlit(r"\bain");
    reveal_strlit("Bulletin Astronomical Institute of the Netherlands");
    lemma_shape_checked(r"\bain", "Bulletin Astronomical Institute of the Netherlands");
    reveal_strlit(r"\caa");
    reveal_strlit("Chinese Astronomy and Astrophysics");
    lemma_shape_checked(r"\caa", "Chinese Astronomy and Astrophysics");
    reveal_strlit(r"\cjaa");
    reveal_strlit("Chinese Journal of Astronomy and Astrophysics");
    lemma_shape_checked(r"\cjaa", "Chinese Journal of Astronomy and Astrophysics");
    reveal_strlit(r"\dps");
    reveal_strlit("American Astronomical Society/Division for Planetary Sciences Meeting Abstracts");
    lemma_shape_checked(r"\dps", "American Astronomical Society/Division for Planetary Sciences Meeting Abstracts");
    reveal_strlit(r"\fcp");
    reveal_strlit("Fundamental Cosmic Physics");
    lemma_shape_checked(r"\fcp", "Fundamental Cosmic Physics");
    reveal_strlit(r"\gca");
    reveal_strlit("Geochimica Cosmochimica Acta");
    lemma_shape_checked(r"\gca", "Geochimica Cosmochimica Acta");
    reveal_strlit(r"\grl");
    reveal_strlit("Geophysics Research Letters");
    lemma_shape_checked(r"\grl", "Geophysics Research Letters");
    reveal_strlit(r"\iaucirc");
    reveal_strlit("IAU Cirulars");
    lemma_shape_checked(r"\iaucirc", "IAU Cirulars");
    reveal_strlit(r"\icarus");
    reveal_strlit("Icarus");
    lemma_shape_checked(r"\icarus", "Icarus");
    reveal_strlit(r"\jaavso");
    reveal_strlit("Journal of the American Association of Variable Star Observers");
    lemma_shape_checked(r"\jaavso", "Journal of the American Association of Variable Star Observers");
    reveal_strlit(r"\jcap");
    reveal_strlit("Journal of Cosmology and Astroparticle Physics");
    lemma_shape_checked(r"\jcap", "Journal of Cosmology and Astroparticle Physics");
    reveal_strlit(r"\jcp");
    reveal_strlit("Journal of Chemical Physics");
    lemma_shape_checked(r"\jcp", "Journal of Chemical Physics");
    reveal_strlit(r"\jgr");
    reveal_strlit("Journal of Geophysics Research");
    lemma_shape_checked(r"\jgr", "Journal of Geophysics Research");
    reveal_strlit(r"\jqsrt");
    reveal_strlit("Journal of Quantitiative Spectroscopy and Radiative Transfer");
    lemma_shape_checked(r"\jqsrt", "Journal of Quantitiative Spectroscopy and Radiative Transfer");
    reveal_strlit(r"\jrasc");
    reveal_strlit("Journal of the RAS of Canada");
    lemma_shape_checked(r"\jrasc", "Journal of the RAS of Canada");
    reveal_strlit(r"\maps");
    reveal_strlit("Meteoritics and Planetary Science");
    lemma_shape_checked(r"\maps", "Meteoritics and Planetary Science");
    reveal_strlit(r"\memras");
    reveal_strlit("Memoirs of the RAS");
    lemma_shape_checked(r"\memras", "Memoirs of the RAS");
    reveal_strlit(r"\memsai");
    reveal_strlit("Mem. Societa Astronomica Italiana");
    lemma_shape_checked(r"\memsai", "Mem. Societa Astronomica Italiana");
    reveal_strlit(r"\mnras");
    reveal_strlit("Monthly Notices of the RAS");
    lemma_shape_checked(r"\mnras", "Monthly Notices of the RAS");
    reveal_strlit(r"\na");
    reveal_strlit("New Astronomy");
    lemma_shape_checked(r"\na", "New Astronomy");
    reveal_strlit(r"\nar");
    reveal_strlit("New Astronomy Review");
    lemma_shape_checked(r"\nar", "New Astronomy Review");
    reveal_strlit(r"\nat");
    reveal_strlit("Nature");
    lemma_shape_checked(r"\nat", "Nature");
    reveal_strlit(r"\nphysa");
    reveal_strlit("Nuclear Physics A");
    lemma_shape_checked(r"\nphysa", "Nuclear Physics A");
    reveal_strlit(r"\pasa");
    reveal_strlit("Publications of the Astron. Soc. of Australia");
    lemma_shape_checked(r"\pasa", "Publications of the Astron. Soc. of Australia");
    reveal_strlit(r"\pasp");
    reveal_strlit("Publications of the ASP");
    lemma_shape_checked(r"\pasp", "Publications of the ASP");
    reveal_strlit(r"\pasj");
    reveal_strlit("Publications of the ASJ");
    lemma_shape_checked(r"\pasj", "Publications of the ASJ");
    reveal_strlit(r"\physrep");
    reveal_strlit("Physics Reports");
    lemma_shape_checked(r"\physrep", "Physics Reports");
    reveal_strlit(r"\physscr");
    reveal_strlit("Physica Scripta");
    lemma_shape_checked(r"\physscr", "Physica Scripta");
    reveal_strlit(r"\planss");
    reveal_strlit("Planetary Space Science");
    lemma_shape_checked(r"\planss", "Planetary Space Science");
    reveal_strlit(r"\pra");
    reveal_strlit("Physical Review A: General Physics");
    lemma_shape_checked(r"\pra", "Physical Review A: General Physics");
    reveal_strlit(r"\prb");
    reveal_strlit("Physical Review B: Solid State");
    lemma_shape_checked(r"\prb", "Physical Review B: Solid State");
    reveal_strlit(r"\prc");
    reveal_strlit("Physical Review C");
    lemma_shape_checked(r"\prc", "Physical Review C");
    reveal_strlit(r"\prd");
    reveal_strlit("Physical Review D");
    lemma_shape_checked(r"\prd", "Physical Review D");
    reveal_strlit(r"\pre");
    reveal_strlit("Physical Review E");
    lemma_shape_checked(r"\pre", "Physical Review E");
    reveal_strlit(r"\prl");
    reveal_strlit("Physical Review Letters");
    lemma_shape_checked(r"\prl", "Physical Review Letters");
    reveal_strlit(r"\procspie");
    reveal_strlit("Proceedings of the SPIE");
    lemma_shape_checked(r"\procspie", "Proceedings of the SPIE");
    reveal_strlit(r"\psj");
    reveal_strlit("Planetary Science Journal");
    lemma_shape_checked(r"\psj", "Planetary Science Journal");
    reveal_strlit(r"\qjras");
    reveal_strlit("Quarterly Journal of the RAS");
    lemma_shape_checked(r"\qjras", "Quarterly Journal of the RAS");
    reveal_strlit(r"\rmxaa");
    reveal_strlit("Revista Mexicana de Astronomia y Astrofisica");
    lemma_shape_checked(r"\rmxaa", "Revista Mexicana de Astronomia y Astrofisica");
    reveal_strlit(r"\skytel");
    reveal_strlit("Sky and Telescope");
    lemma_shape_checked(r"\skytel", "Sky and Telescope");
    reveal_strlit(r"\solphys");
    reveal_strlit("Solar Physics");
    lemma_shape_checked(r"\solphys", "Solar Physics");
    reveal_strlit(r"\sovast");
    reveal_strlit("Soviet Astronomy");
    lemma_shape_checked(r"\sovast", "Soviet Astronomy");
    reveal_strlit(r"\ssr");
    reveal_strlit("Space Science Reviews");
    lemma_shape_checked(r"\ssr", "Space Science Reviews");
    reveal_strlit(r"\zap");
    reveal_strlit("Zeitschrift fuer Astrophysik");
    lemma_shape_checked(r"\zap", "Zeitschrift fuer Astrophysik");
}

/// The characters of `token` from index `from` on, read as the digits of a number.
spec fn spelling(token: Seq<char>, from: int) -> int
    decreases token.len() - from,
{
    if from >= token.len() {
        0
    } else {
        token[from] as int + 256 * spelling(token, from + 1)
    }
}

/// No two macros of the table have the same token.
pub proof fn lemma_tokens_differ(i: int, j: int)
    requires
        0 <= i < macro_table().len(),
        0 <= j < macro_table().len(),
        macro_table()[i].token == macro_table()[j].token,
    ensures
        i == j,
{
    reveal_with_fuel(spelling, 10);
    reveal_strlit(r"\aas");
    reveal_strlit(r"\aj");
    reveal_strlit(r"\actaa");
    reveal_strlit(r"\araa");
    reveal_strlit(r"\apj");
    reveal_strlit(r"\apjl");
    reveal_strlit(r"\apjs");
    reveal_strlit(r"\ao");
    reveal_strlit(r"\apss");
    reveal_strlit(r"\aap");
    reveal_strlit(r"\aapr");
    reveal_strlit(r"\aaps");
    reveal_strlit(r"\aplett");
    reveal_strlit(r"\apspr");
    reveal_strlit(r"\azh");
    reveal_strlit(r"\baas");
    reveal_strlit(r"\bain");
    reveal_strlit(r"\caa");
    reveal_strlit(r"\cjaa");
    reveal_strlit(r"\dps");
    reveal_strlit(r"\fcp");
    reveal_strlit(r"\gca");
    reveal_strlit(r"\grl");
    reveal_strlit(r"\iaucirc");
    reveal_strlit(r"\icarus");
    reveal_strlit(r"\jaavso");
    reveal_strlit(r"\jcap");
    reveal_strlit(r"\jcp");
    reveal_strlit(r"\jgr");
    reveal_strlit(r"\jqsrt");
    reveal_strlit(r"\jrasc");
    reveal_strlit(r"\maps");
    reveal_strlit(r"\memras");
    reveal_strlit(r"\memsai");
    reveal_strlit(r"\mnras");
    reveal_strlit(r"\na");
    reveal_strlit(r"\nar");
    reveal_strlit(r"\nat");
    reveal_strlit(r"\nphysa");
    reveal_strlit(r"\pasa");
    reveal_strlit(r"\pasp");
    reveal_strlit(r"\pasj");
    reveal_strlit(r"\physrep");
    reveal_strlit(r"\physscr");
    reveal_strlit(r"\planss");
    reveal_strlit(r"\pra");
    reveal_strlit(r"\prb");
    reveal_strlit(r"\prc");
    reveal_strlit(r"\prd");
    reveal_strlit(r"\pre");
    reveal_strlit(r"\prl");
    reveal_strlit(r"\procspie");
    reveal_strlit(r"\psj");
    reveal_strlit(r"\qjras");
    reveal_strlit(r"\rmxaa");
    reveal_strlit(r"\skytel");
    reveal_strlit(r"\solphys");
    reveal_strlit(r"\sovast");
    reveal_strlit(r"\ssr");
    reveal_strlit(r"\zap");
    assert(spelling(r"\aas"@, 0) > 0);
    assert(spelling(r"\aj"@, 0) > 0);
    assert(spelling(r"\actaa"@, 0) > 0);
    assert(spelling(r"\araa"@, 0) > 0);
    assert(spelling(r"\apj"@, 0) > 0);
    assert(spelling(r"\apjl"@, 0) > 0);
    assert(spelling(r"\apjs"@, 0) > 0);
    assert(spelling(r"\ao"@, 0) > 0);
    assert(spelling(r"\apss"@, 0) > 0);
    assert(spelling(r"\aap"@, 0) > 0);
    assert(spelling(r"\aapr"@, 0) > 0);
    assert(spelling(r"\aaps"@, 0) > 0);
    assert(spelling(r"\aplett"@, 0) > 0);
    assert(spelling(r"\apspr"@, 0) > 0);
    assert(spelling(r"\azh"@, 0) > 0);
    assert(spelling(r"\baas"@, 0) > 0);
    assert(spelling(r"\bain"@, 0) > 0);
    assert(spelling(r"\caa"@, 0) > 0);
    assert(spelling(r"\cjaa"@, 0) > 0);
    assert(spelling(r"\dps"@, 0) > 0);
    assert(spelling(r"\fcp"@, 0) > 0);
    assert(spelling(r"\gca"@, 0) > 0);
    assert(spelling(r"\grl"@, 0) > 0);
    assert(spelling(r"\iaucirc"@, 0) > 0);
    assert(spelling(r"\icarus"@, 0) > 0);
    assert(spelling(r"\jaavso"@, 0) > 0);
    assert(spelling(r"\jcap"@, 0) > 0);
    assert(spelling(r"\jcp"@, 0) > 0);
    assert(spelling(r"\jgr"@, 0) > 0);
    assert(spelling(r"\jqsrt"@, 0) > 0);
    assert(spelling(r"\jrasc"@, 0) > 0);
    assert(spelling(r"\maps"@, 0) > 0);
    assert(spelling(r"\memras"@, 0) > 0);
    assert(spelling(r"\memsai"@, 0) > 0);
    assert(spelling(r"\mnras"@, 0) > 0);
    assert(spelling(r"\na"@, 0) > 0);
    assert(spelling(r"\nar"@, 0) > 0);
    assert(spelling(r"\nat"@, 0) > 0);
    assert(spelling(r"\nphysa"@, 0) > 0);
    assert(spelling(r"\pasa"@, 0) > 0);
    assert(spelling(r"\pasp"@, 0) > 0);
    assert(spelling(r"\pasj"@, 0) > 0);
    assert(spelling(r"\physrep"@, 0) > 0);
    assert(spelling(r"\physscr"@, 0) > 0);
    assert(spelling(r"\planss"@, 0) > 0);
    assert(spelling(r"\pra"@, 0) > 0);
    assert(spelling(r"\prb"@, 0) > 0);
    assert(spelling(r"\prc"@, 0) > 0);
    assert(spelling(r"\prd"@, 0) > 0);
    assert(spelling(r"\pre"@, 0) > 0);
    assert(spelling(r"\prl"@, 0) > 0);
    assert(spelling(r"\procspie"@, 0) > 0);
    assert(spelling(r"\psj"@, 0) > 0);
    assert(spelling(r"\qjras"@, 0) > 0);
    assert(spelling(r"\rmxaa"@, 0) > 0);
    assert(spelling(r"\skytel"@, 0) > 0);
    assert(spelling(r"\solphys"@, 0) > 0);
    assert(spelling(r"\sovast"@, 0) > 0);
    assert(spelling(r"\ssr"@, 0) > 0);
    assert(spelling(r"\zap"@, 0) > 0);
    assert(spelling(macro_table()[i].token, 0) == spelling(macro_table()[j].token, 0));
}

} // verus!
