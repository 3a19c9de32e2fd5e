//! The table of journal macros.
//!
//! The macros are those of the ADS bibliographic database:
//! <https://ui.adsabs.harvard.edu/help/actions/journal-macros>.

use crate::text::chars_of;
use vstd::prelude::*;

verus! {

/// A macro: the token that stands in a bibliography, and the journal's name that
/// it stands for.
pub struct Macro {
    pub token: Seq<char>,
    pub replacement: Seq<char>,
}

/// A macro as the expander holds it.
pub struct Mapping {
    pub token: Vec<char>,
    pub replacement: Vec<char>,
}

impl View for Mapping {
    type V = Macro;

    open spec fn view(&self) -> Macro {
        Macro { token: self.token@, replacement: self.replacement@ }
    }
}

impl Mapping {
    /// The macro that expands `token` to `replacement`.
    pub fn new(token: &str, replacement: &str) -> (mapping: Mapping)
        ensures
            mapping@ == macro_of(token, replacement),
    {
        Mapping { token: chars_of(token), replacement: chars_of(replacement) }
    }
}

/// The macro that expands `token` to `replacement`.
pub open spec fn macro_of(token: &str, replacement: &str) -> Macro {
    Macro { token: token@, replacement: replacement@ }
}

/// The macros of a table of mappings, in the table's order.
pub open spec fn macros_of(table: Seq<Mapping>) -> Seq<Macro> {
    table.map_values(|mapping: Mapping| mapping@)
}

/// The table of macros, in the order in which it is written down.
pub open spec fn macro_table() -> Seq<Macro> {
    seq![
        macro_of(r"\aas", "American Astronomical Society Meeting Abstracts"),
        macro_of(r"\aj", "Astronomical Journal"),
        macro_of(r"\actaa", "Acta Astronomica"),
        macro_of(r"\araa", "Annual Review of Astron and Astrophysis"),
        macro_of(r"\apj", "Astrophysical Journal"),
        macro_of(r"\apjl", "Astrophysical Journal, Letters"),
        macro_of(r"\apjs", "Astrophysical Journal, Supplement"),
        macro_of(r"\ao", "Applied Optics"),
        macro_of(r"\apss", "Astrophysics and Space Science"),
        macro_of(r"\aap", "Astronomy and Astrophysics"),
        macro_of(r"\aapr", "Astronomy and Astrophysics Reviews"),
        macro_of(r"\aaps", "Astronomy and Astrophysics, Supplement"),
        macro_of(r"\aplett", "Astrophysics Letters"),
        macro_of(r"\apspr", "Astrophysics Space Physics Research"),
        macro_of(r"\azh", "Astronomicheskii Zhurnal"),
        macro_of(r"\baas", "Bulletin of the AAS"),
        macro_of(r"\bain", "Bulletin Astronomical Institute of the Netherlands"),
        macro_of(r"\caa", "Chinese Astronomy and Astrophysics"),
        macro_of(r"\cjaa", "Chinese Journal of Astronomy and Astrophysics"),
        macro_of(
            r"\dps",
            "American Astronomical Society/Division for Planetary Sciences Meeting Abstracts",
        ),
        macro_of(r"\fcp", "Fundamental Cosmic Physics"),
        macro_of(r"\gca", "Geochimica Cosmochimica Acta"),
        macro_of(r"\grl", "Geophysics Research Letters"),
        macro_of(r"\iaucirc", "IAU Cirulars"),
        macro_of(r"\icarus", "Icarus"),
        macro_of(r"\jaavso", "Journal of the American Association of Variable Star Observers"),
        macro_of(r"\jcap", "Journal of Cosmology and Astroparticle Physics"),
        macro_of(r"\jcp", "Journal of Chemical Physics"),
        macro_of(r"\jgr", "Journal of Geophysics Research"),
        macro_of(r"\jqsrt", "Journal of Quantitiative Spectroscopy and Radiative Transfer"),
        macro_of(r"\jrasc", "Journal of the RAS of Canada"),
        macro_of(r"\maps", "Meteoritics and Planetary Science"),
        macro_of(r"\memras", "Memoirs of the RAS"),
        macro_of(r"\memsai", "Mem. Societa Astronomica Italiana"),
        macro_of(r"\mnras", "Monthly Notices of the RAS"),
        macro_of(r"\na", "New Astronomy"),
        macro_of(r"\nar", "New Astronomy Review"),
        macro_of(r"\nat", "Nature"),
        macro_of(r"\nphysa", "Nuclear Physics A"),
        macro_of(r"\pasa", "Publications of the Astron. Soc. of Australia"),
        macro_of(r"\pasp", "Publications of the ASP"),
        macro_of(r"\pasj", "Publications of the ASJ"),
        macro_of(r"\physrep", "Physics Reports"),
        macro_of(r"\physscr", "Physica Scripta"),
        macro_of(r"\planss", "Planetary Space Science"),
        macro_of(r"\pra", "Physical Review A: General Physics"),
        macro_of(r"\prb", "Physical Review B: Solid State"),
        macro_of(r"\prc", "Physical Review C"),
        macro_of(r"\prd", "Physical Review D"),
        macro_of(r"\pre", "Physical Review E"),
        macro_of(r"\prl", "Physical Review Letters"),
        macro_of(r"\procspie", "Proceedings of the SPIE"),
        macro_of(r"\psj", "Planetary Science Journal"),
        macro_of(r"\qjras", "Quarterly Journal of the RAS"),
        macro_of(r"\rmxaa", "Revista Mexicana de Astronomia y Astrofisica"),
        macro_of(r"\skytel", "Sky and Telescope"),
        macro_of(r"\solphys", "Solar Physics"),
        macro_of(r"\sovast", "Soviet Astronomy"),
        macro_of(r"\ssr", "Space Science Reviews"),
        macro_of(r"\zap", "Zeitschrift fuer Astrophysik"),
    ]
}

/// The table of macros, in the order in which it is written down.
pub fn mappings() -> (table: Vec<Mapping>)
    ensures
        macros_of(table@) == macro_table(),
{
    let mut table: Vec<Mapping> = Vec::new();
    table.push(Mapping::new(r"\aas", "American Astronomical Society Meeting Abstracts"));
    table.push(Mapping::new(r"\aj", "Astronomical Journal"));
    table.push(Mapping::new(r"\actaa", "Acta Astronomica"));
    table.push(Mapping::new(r"\araa", "Annual Review of Astron and Astrophysis"));
    table.push(Mapping::new(r"\apj", "Astrophysical Journal"));
    table.push(Mapping::new(r"\apjl", "Astrophysical Journal, Letters"));
    table.push(Mapping::new(r"\apjs", "Astrophysical Journal, Supplement"));
    table.push(Mapping::new(r"\ao", "Applied Optics"));
    table.push(Mapping::new(r"\apss", "Astrophysics and Space Science"));
    table.push(Mapping::new(r"\aap", "Astronomy and Astrophysics"));
    table.push(Mapping::new(r"\aapr", "Astronomy and Astrophysics Reviews"));
    table.push(Mapping::new(r"\aaps", "Astronomy and Astrophysics, Supplement"));
    table.push(Mapping::new(r"\aplett", "Astrophysics Letters"));
    table.push(Mapping::new(r"\apspr", "Astrophysics Space Physics Research"));
    table.push(Mapping::new(r"\azh", "Astronomicheskii Zhurnal"));
    table.push(Mapping::new(r"\baas", "Bulletin of the AAS"));
    table.push(Mapping::new(r"\bain", "Bulletin Astronomical Institute of the Netherlands"));
    table.push(Mapping::new(r"\caa", "Chinese Astronomy and Astrophysics"));
    table.push(Mapping::new(r"\cjaa", "Chinese Journal of Astronomy and Astrophysics"));
    table.push(
        Mapping::new(
            r"\dps",
            "American Astronomical Society/Division for Planetary Sciences Meeting Abstracts",
        ),
    );
    table.push(Mapping::new(r"\fcp", "Fundamental Cosmic Physics"));
    table.push(Mapping::new(r"\gca", "Geochimica Cosmochimica Acta"));
    table.push(Mapping::new(r"\grl", "Geophysics Research Letters"));
    table.push(Mapping::new(r"\iaucirc", "IAU Cirulars"));
    table.push(Mapping::new(r"\icarus", "Icarus"));
    table.push(
        Mapping::new(
            r"\jaavso",
            "Journal of the American Association of Variable Star Observers",
        ),
    );
    table.push(Mapping::new(r"\jcap", "Journal of Cosmology and Astroparticle Physics"));
    table.push(Mapping::new(r"\jcp", "Journal of Chemical Physics"));
    table.push(Mapping::new(r"\jgr", "Journal of Geophysics Research"));
    table.push(
        Mapping::new(
            r"\jqsrt",
            "Journal of Quantitiative Spectroscopy and Radiative Transfer",
        ),
    );
    table.push(Mapping::new(r"\jrasc", "Journal of the RAS of Canada"));
    table.push(Mapping::new(r"\maps", "Meteoritics and Planetary Science"));
    table.push(Mapping::new(r"\memras", "Memoirs of the RAS"));
    table.push(Mapping::new(r"\memsai", "Mem. Societa Astronomica Italiana"));
    table.push(Mapping::new(r"\mnras", "Monthly Notices of the RAS"));
    table.push(Mapping::new(r"\na", "New Astronomy"));
    table.push(Mapping::new(r"\nar", "New Astronomy Review"));
    table.push(Mapping::new(r"\nat", "Nature"));
    table.push(Mapping::new(r"\nphysa", "Nuclear Physics A"));
    table.push(Mapping::new(r"\pasa", "Publications of the Astron. Soc. of Australia"));
    table.push(Mapping::new(r"\pasp", "Publications of the ASP"));
    table.push(Mapping::new(r"\pasj", "Publications of the ASJ"));
    table.push(Mapping::new(r"\physrep", "Physics Reports"));
    table.push(Mapping::new(r"\physscr", "Physica Scripta"));
    table.push(Mapping::new(r"\planss", "Planetary Space Science"));
    table.push(Mapping::new(r"\pra", "Physical Review A: General Physics"));
    table.push(Mapping::new(r"\prb", "Physical Review B: Solid State"));
    table.push(Mapping::new(r"\prc", "Physical Review C"));
    table.push(Mapping::new(r"\prd", "Physical Review D"));
    table.push(Mapping::new(r"\pre", "Physical Review E"));
    table.push(Mapping::new(r"\prl", "Physical Review Letters"));
    table.push(Mapping::new(r"\procspie", "Proceedings of the SPIE"));
    table.push(Mapping::new(r"\psj", "Planetary Science Journal"));
    table.push(Mapping::new(r"\qjras", "Quarterly Journal of the RAS"));
    table.push(Mapping::new(r"\rmxaa", "Revista Mexicana de Astronomia y Astrofisica"));
    table.push(Mapping::new(r"\skytel", "Sky and Telescope"));
    table.push(Mapping::new(r"\solphys", "Solar Physics"));
    table.push(Mapping::new(r"\sovast", "Soviet Astronomy"));
    table.push(Mapping::new(r"\ssr", "Space Science Reviews"));
    table.push(Mapping::new(r"\zap", "Zeitschrift fuer Astrophysik"));
    assert(macros_of(table@) =~= macro_table());
    table
}

} // verus!
