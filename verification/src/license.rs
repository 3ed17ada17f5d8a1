//! Dependency licenses: SPDX normalisation, classification and a
//! compliance analysis of a set of dependencies.

use vstd::prelude::*;
use crate::text::{
    lowercase, all_ascii, to_lowercase, str_eq, owned, chars_of, find, find_seq, string_of, starts_with,
    str_starts_with, concat3,
};
use crate::num::{decimal, usize_to_decimal};
use crate::tally::{tally, tally_strings, count_views};

verus! {

/// Kind of a license, by how far its copyleft reaches.
#[derive(Debug, Clone, Copy, PartialEq, Eq, Structural)]
pub enum LicenseCategory {
    Permissive,
    WeakCopyleft,
    StrongCopyleft,
    Unknown,
}

/// Display name of a category.
pub open spec fn category_name(c: LicenseCategory) -> Seq<char> {
    match c {
        LicenseCategory::Permissive => "Permissive"@,
        LicenseCategory::WeakCopyleft => "Weak Copyleft"@,
        LicenseCategory::StrongCopyleft => "Strong Copyleft"@,
        LicenseCategory::Unknown => "Unknown"@,
    }
}

impl LicenseCategory {
    /// Display name of the category.
    pub fn display(&self) -> (r: &'static str)
        ensures
            r@ == category_name(*self),
    {
        match self {
            LicenseCategory::Permissive => "Permissive",
            LicenseCategory::WeakCopyleft => "Weak Copyleft",
            LicenseCategory::StrongCopyleft => "Strong Copyleft",
            LicenseCategory::Unknown => "Unknown",
        }
    }
}

/// License of one dependency.
#[derive(Debug, Clone)]
pub struct LicenseInfo {
    pub group: String,
    pub artifact: String,
    pub version: String,
    pub license: String,
    pub spdx_id: String,
    pub category: LicenseCategory,
}

/// Two licenses that may not go together.
#[derive(Debug, Clone)]
pub struct ComplianceConflict {
    pub license1: String,
    pub license2: String,
    pub reason: String,
}

/// Counts per category, and per SPDX id in order of first appearance.
#[derive(Debug, Clone)]
pub struct LicenseSummary {
    pub total_dependencies: usize,
    pub permissive: usize,
    pub weak_copyleft: usize,
    pub strong_copyleft: usize,
    pub unknown: usize,
    pub license_counts: Vec<(String, usize)>,
}

/// Result of the compliance analysis.
#[derive(Debug, Clone)]
pub struct ComplianceReport {
    pub compatible: bool,
    pub conflicts: Vec<ComplianceConflict>,
    pub warnings: Vec<String>,
    pub summary: LicenseSummary,
}

// ───────────────────────────── SPDX ids ─────────────────────────────

/// SPDX id for a lower-cased license name that has a known spelling.
pub open spec fn known_spdx(lower: Seq<char>) -> Option<Seq<char>> {
    if lower == "mit"@ {
        Some("MIT"@)
    } else if lower == "apache license 2.0"@ || lower == "apache-2.0"@ {
        Some("Apache-2.0"@)
    } else if lower == "bsd 2-clause"@ || lower == "bsd 2 clause"@ {
        Some("BSD-2-Clause"@)
    } else if lower == "bsd 3-clause"@ || lower == "bsd 3 clause"@ {
        Some("BSD-3-Clause"@)
    } else if lower == "gpl v3"@ || lower == "gpl-3.0"@ || lower
        == "gnu general public license v3"@ {
        Some("GPL-3.0"@)
    } else if lower == "gpl v2"@ || lower == "gpl-2.0"@ || lower
        == "gnu general public license v2"@ {
        Some("GPL-2.0"@)
    } else if lower == "lgpl v3"@ || lower == "lgpl-3.0"@ || lower
        == "gnu lesser general public license v3"@ {
        Some("LGPL-3.0"@)
    } else if lower == "lgpl v2.1"@ || lower == "lgpl-2.1"@ || lower
        == "gnu lesser general public license v2.1"@ {
        Some("LGPL-2.1"@)
    } else if lower == "epl 2.0"@ || lower == "eclipse public license 2.0"@ {
        Some("EPL-2.0"@)
    } else if lower == "mpl 2.0"@ || lower == "mozilla public license 2.0"@ {
        Some("MPL-2.0"@)
    } else {
        None
    }
}

/// The SPDX id of a license name: the known id of its lower-cased form,
/// or the name unchanged.
pub open spec fn normalized_spdx(license: Seq<char>) -> Seq<char> {
    match known_spdx(lowercase(license)) {
        Some(id) => id,
        None => license,
    }
}

/// `MIT` normalises to itself.
proof fn lemma_spdx_fixed_mit()
    ensures
        normalized_spdx("MIT"@) == "MIT"@,
{
    reveal_strlit("MIT");
    reveal_strlit("mit");
    reveal_strlit("apache license 2.0");
    reveal_strlit("apache-2.0");
    reveal_strlit("bsd 2-clause");
    reveal_strlit("bsd 2 clause");
    reveal_strlit("bsd 3-clause");
    reveal_strlit("bsd 3 clause");
    reveal_strlit("gpl v3");
    reveal_strlit("gpl-3.0");
    reveal_strlit("gnu general public license v3");
    reveal_strlit("gpl v2");
    reveal_strlit("gpl-2.0");
    reveal_strlit("gnu general public license v2");
    reveal_strlit("lgpl v3");
    reveal_strlit("lgpl-3.0");
    reveal_strlit("gnu lesser general public license v3");
    reveal_strlit("lgpl v2.1");
    reveal_strlit("lgpl-2.1");
    reveal_strlit("gnu lesser general public license v2.1");
    reveal_strlit("epl 2.0");
    reveal_strlit("eclipse public license 2.0");
    reveal_strlit("mpl 2.0");
    reveal_strlit("mozilla public license 2.0");
    let id = "MIT"@;
    assert(all_ascii(id)) by {
        assert forall|i: int| 0 <= i < id.len() implies (#[trigger] id[i] as u32) < 128 by {
            assert(0 <= i < 3);
        }
    }
    assert(lowercase(id) =~= "mit"@);
    assert(known_spdx("mit"@) == Some("MIT"@));
}

/// `Apache-2.0` normalises to itself.
proof fn lemma_spdx_fixed_apache_2_0()
    ensures
        normalized_spdx("Apache-2.0"@) == "Apache-2.0"@,
{
    reveal_strlit("Apache-2.0");
    reveal_strlit("apache-2.0");
    reveal_strlit("mit");
    reveal_strlit("apache license 2.0");
    reveal_strlit("bsd 2-clause");
    reveal_strlit("bsd 2 clause");
    reveal_strlit("bsd 3-clause");
    reveal_strlit("bsd 3 clause");
    reveal_strlit("gpl v3");
    reveal_strlit("gpl-3.0");
    reveal_strlit("gnu general public license v3");
    reveal_strlit("gpl v2");
    reveal_strlit("gpl-2.0");
    reveal_strlit("gnu general public license v2");
    reveal_strlit("lgpl v3");
    reveal_strlit("lgpl-3.0");
    reveal_strlit("gnu lesser general public license v3");
    reveal_strlit("lgpl v2.1");
    reveal_strlit("lgpl-2.1");
    reveal_strlit("gnu lesser general public license v2.1");
    reveal_strlit("epl 2.0");
    reveal_strlit("eclipse public license 2.0");
    reveal_strlit("mpl 2.0");
    reveal_strlit("mozilla public license 2.0");
    let id = "Apache-2.0"@;
    assert(all_ascii(id)) by {
        assert forall|i: int| 0 <= i < id.len() implies (#[trigger] id[i] as u32) < 128 by {
            assert(0 <= i < 10);
        }
    }
    assert(lowercase(id) =~= "apache-2.0"@);
    assert(known_spdx("apache-2.0"@) == Some("Apache-2.0"@));
}

/// `BSD-2-Clause` normalises to itself.
proof fn lemma_spdx_fixed_bsd_2_clause()
    ensures
        normalized_spdx("BSD-2-Clause"@) == "BSD-2-Clause"@,
{
    reveal_strlit("BSD-2-Clause");
    reveal_strlit("bsd-2-clause");
    reveal_strlit("bsd 2-clause");
    assert("bsd-2-clause"@[3] != "bsd 2-clause"@[3]);
    reveal_strlit("bsd 2 clause");
    assert("bsd-2-clause"@[3] != "bsd 2 clause"@[3]);
    reveal_strlit("bsd 3-clause");
    assert("bsd-2-clause"@[3] != "bsd 3-clause"@[3]);
    reveal_strlit("bsd 3 clause");
    assert("bsd-2-clause"@[3] != "bsd 3 clause"@[3]);
    reveal_strlit("mit");
    reveal_strlit("apache license 2.0");
    reveal_strlit("apache-2.0");
    reveal_strlit("gpl v3");
    reveal_strlit("gpl-3.0");
    reveal_strlit("gnu general public license v3");
    reveal_strlit("gpl v2");
    reveal_strlit("gpl-2.0");
    reveal_strlit("gnu general public license v2");
    reveal_strlit("lgpl v3");
    reveal_strlit("lgpl-3.0");
    reveal_strlit("gnu lesser general public license v3");
    reveal_strlit("lgpl v2.1");
    reveal_strlit("lgpl-2.1");
    reveal_strlit("gnu lesser general public license v2.1");
    reveal_strlit("epl 2.0");
    reveal_strlit("eclipse public license 2.0");
    reveal_strlit("mpl 2.0");
    reveal_strlit("mozilla public license 2.0");
    let id = "BSD-2-Clause"@;
    assert(all_ascii(id)) by {
        assert forall|i: int| 0 <= i < id.len() implies (#[trigger] id[i] as u32) < 128 by {
            assert(0 <= i < 12);
        }
    }
    assert(lowercase(id) =~= "bsd-2-clause"@);
    assert(known_spdx("bsd-2-clause"@) == None::<Seq<char>>);
}

/// `BSD-3-Clause` normalises to itself.
proof fn lemma_spdx_fixed_bsd_3_clause()
    ensures
        normalized_spdx("BSD-3-Clause"@) == "BSD-3-Clause"@,
{
    reveal_strlit("BSD-3-Clause");
    reveal_strlit("bsd-3-clause");
    reveal_strlit("bsd 2-clause");
    assert("bsd-3-clause"@[3] != "bsd 2-clause"@[3]);
    reveal_strlit("bsd 2 clause");
    assert("bsd-3-clause"@[3] != "bsd 2 clause"@[3]);
    reveal_strlit("bsd 3-clause");
    assert("bsd-3-clause"@[3] != "bsd 3-clause"@[3]);
    reveal_strlit("bsd 3 clause");
    assert("bsd-3-clause"@[3] != "bsd 3 clause"@[3]);
    reveal_strlit("mit");
    reveal_strlit("apache license 2.0");
    reveal_strlit("apache-2.0");
    reveal_strlit("gpl v3");
    reveal_strlit("gpl-3.0");
    reveal_strlit("gnu general public license v3");
    reveal_strlit("gpl v2");
    reveal_strlit("gpl-2.0");
    reveal_strlit("gnu general public license v2");
    reveal_strlit("lgpl v3");
    reveal_strlit("lgpl-3.0");
    reveal_strlit("gnu lesser general public license v3");
    reveal_strlit("lgpl v2.1");
    reveal_strlit("lgpl-2.1");
    reveal_strlit("gnu lesser general public license v2.1");
    reveal_strlit("epl 2.0");
    reveal_strlit("eclipse public license 2.0");
    reveal_strlit("mpl 2.0");
    reveal_strlit("mozilla public license 2.0");
    let id = "BSD-3-Clause"@;
    assert(all_ascii(id)) by {
        assert forall|i: int| 0 <= i < id.len() implies (#[trigger] id[i] as u32) < 128 by {
            assert(0 <= i < 12);
        }
    }
    assert(lowercase(id) =~= "bsd-3-clause"@);
    assert(known_spdx("bsd-3-clause"@) == None::<Seq<char>>);
}

/// `GPL-3.0` normalises to itself.
proof fn lemma_spdx_fixed_gpl_3_0()
    ensures
        normalized_spdx("GPL-3.0"@) == "GPL-3.0"@,
{
    reveal_strlit("GPL-3.0");
    reveal_strlit("gpl-3.0");
    reveal_strlit("gpl-2.0");
    assert("gpl-3.0"@[4] != "gpl-2.0"@[4]);
    reveal_strlit("lgpl v3");
    assert("gpl-3.0"@[0] != "lgpl v3"@[0]);
    reveal_strlit("epl 2.0");
    assert("gpl-3.0"@[0] != "epl 2.0"@[0]);
    reveal_strlit("mpl 2.0");
    assert("gpl-3.0"@[0] != "mpl 2.0"@[0]);
    reveal_strlit("mit");
    reveal_strlit("apache license 2.0");
    reveal_strlit("apache-2.0");
    reveal_strlit("bsd 2-clause");
    reveal_strlit("bsd 2 clause");
    reveal_strlit("bsd 3-clause");
    reveal_strlit("bsd 3 clause");
    reveal_strlit("gpl v3");
    reveal_strlit("gnu general public license v3");
    reveal_strlit("gpl v2");
    reveal_strlit("gnu general public license v2");
    reveal_strlit("lgpl-3.0");
    reveal_strlit("gnu lesser general public license v3");
    reveal_strlit("lgpl v2.1");
    reveal_strlit("lgpl-2.1");
    reveal_strlit("gnu lesser general public license v2.1");
    reveal_strlit("eclipse public license 2.0");
    reveal_strlit("mozilla public license 2.0");
    let id = "GPL-3.0"@;
    assert(all_ascii(id)) by {
        assert forall|i: int| 0 <= i < id.len() implies (#[trigger] id[i] as u32) < 128 by {
            assert(0 <= i < 7);
        }
    }
    assert(lowercase(id) =~= "gpl-3.0"@);
    assert(known_spdx("gpl-3.0"@) == Some("GPL-3.0"@));
}

/// `GPL-2.0` normalises to itself.
proof fn lemma_spdx_fixed_gpl_2_0()
    ensures
        normalized_spdx("GPL-2.0"@) == "GPL-2.0"@,
{
    reveal_strlit("GPL-2.0");
    reveal_strlit("gpl-2.0");
    reveal_strlit("gpl-3.0");
    assert("gpl-2.0"@[4] != "gpl-3.0"@[4]);
    reveal_strlit("lgpl v3");
    assert("gpl-2.0"@[0] != "lgpl v3"@[0]);
    reveal_strlit("epl 2.0");
    assert("gpl-2.0"@[0] != "epl 2.0"@[0]);
    reveal_strlit("mpl 2.0");
    assert("gpl-2.0"@[0] != "mpl 2.0"@[0]);
    reveal_strlit("mit");
    reveal_strlit("apache license 2.0");
    reveal_strlit("apache-2.0");
    reveal_strlit("bsd 2-clause");
    reveal_strlit("bsd 2 clause");
    reveal_strlit("bsd 3-clause");
    reveal_strlit("bsd 3 clause");
    reveal_strlit("gpl v3");
    reveal_strlit("gnu general public license v3");
    reveal_strlit("gpl v2");
    reveal_strlit("gnu general public license v2");
    reveal_strlit("lgpl-3.0");
    reveal_strlit("gnu lesser general public license v3");
    reveal_strlit("lgpl v2.1");
    reveal_strlit("lgpl-2.1");
    reveal_strlit("gnu lesser general public license v2.1");
    reveal_strlit("eclipse public license 2.0");
    reveal_strlit("mozilla public license 2.0");
    let id = "GPL-2.0"@;
    assert(all_ascii(id)) by {
        assert forall|i: int| 0 <= i < id.len() implies (#[trigger] id[i] as u32) < 128 by {
            assert(0 <= i < 7);
        }
    }
    assert(lowercase(id) =~= "gpl-2.0"@);
    assert(known_spdx("gpl-2.0"@) == Some("GPL-2.0"@));
}

/// `LGPL-3.0` normalises to itself.
proof fn lemma_spdx_fixed_lgpl_3_0()
    ensures
        normalized_spdx("LGPL-3.0"@) == "LGPL-3.0"@,
{
    reveal_strlit("LGPL-3.0");
    reveal_strlit("lgpl-3.0");
    reveal_strlit("lgpl-2.1");
    assert("lgpl-3.0"@[5] != "lgpl-2.1"@[5]);
    reveal_strlit("mit");
    reveal_strlit("apache license 2.0");
    reveal_strlit("apache-2.0");
    reveal_strlit("bsd 2-clause");
    reveal_strlit("bsd 2 clause");
    reveal_strlit("bsd 3-clause");
    reveal_strlit("bsd 3 clause");
    reveal_strlit("gpl v3");
    reveal_strlit("gpl-3.0");
    reveal_strlit("gnu general public license v3");
    reveal_strlit("gpl v2");
    reveal_strlit("gpl-2.0");
    reveal_strlit("gnu general public license v2");
    reveal_strlit("lgpl v3");
    reveal_strlit("gnu lesser general public license v3");
    reveal_strlit("lgpl v2.1");
    reveal_strlit("gnu lesser general public license v2.1");
    reveal_strlit("epl 2.0");
    reveal_strlit("eclipse public license 2.0");
    reveal_strlit("mpl 2.0");
    reveal_strlit("mozilla public license 2.0");
    let id = "LGPL-3.0"@;
    assert(all_ascii(id)) by {
        assert forall|i: int| 0 <= i < id.len() implies (#[trigger] id[i] as u32) < 128 by {
            assert(0 <= i < 8);
        }
    }
    assert(lowercase(id) =~= "lgpl-3.0"@);
    assert(known_spdx("lgpl-3.0"@) == Some("LGPL-3.0"@));
}

/// `LGPL-2.1` normalises to itself.
proof fn lemma_spdx_fixed_lgpl_2_1()
    ensures
        normalized_spdx("LGPL-2.1"@) == "LGPL-2.1"@,
{
    reveal_strlit("LGPL-2.1");
    reveal_strlit("lgpl-2.1");
    reveal_strlit("lgpl-3.0");
    assert("lgpl-2.1"@[5] != "lgpl-3.0"@[5]);
    reveal_strlit("mit");
    reveal_strlit("apache license 2.0");
    reveal_strlit("apache-2.0");
    reveal_strlit("bsd 2-clause");
    reveal_strlit("bsd 2 clause");
    reveal_strlit("bsd 3-clause");
    reveal_strlit("bsd 3 clause");
    reveal_strlit("gpl v3");
    reveal_strlit("gpl-3.0");
    reveal_strlit("gnu general public license v3");
    reveal_strlit("gpl v2");
    reveal_strlit("gpl-2.0");
    reveal_strlit("gnu general public license v2");
    reveal_strlit("lgpl v3");
    reveal_strlit("gnu lesser general public license v3");
    reveal_strlit("lgpl v2.1");
    reveal_strlit("gnu lesser general public license v2.1");
    reveal_strlit("epl 2.0");
    reveal_strlit("eclipse public license 2.0");
    reveal_strlit("mpl 2.0");
    reveal_strlit("mozilla public license 2.0");
    let id = "LGPL-2.1"@;
    assert(all_ascii(id)) by {
        assert forall|i: int| 0 <= i < id.len() implies (#[trigger] id[i] as u32) < 128 by {
            assert(0 <= i < 8);
        }
    }
    assert(lowercase(id) =~= "lgpl-2.1"@);
    assert(known_spdx("lgpl-2.1"@) == Some("LGPL-2.1"@));
}

/// `EPL-2.0` normalises to itself.
proof fn lemma_spdx_fixed_epl_2_0()
    ensures
        normalized_spdx("EPL-2.0"@) == "EPL-2.0"@,
{
    reveal_strlit("EPL-2.0");
    reveal_strlit("epl-2.0");
    reveal_strlit("gpl-3.0");
    assert("epl-2.0"@[0] != "gpl-3.0"@[0]);
    reveal_strlit("gpl-2.0");
    assert("epl-2.0"@[0] != "gpl-2.0"@[0]);
    reveal_strlit("lgpl v3");
    assert("epl-2.0"@[0] != "lgpl v3"@[0]);
    reveal_strlit("epl 2.0");
    assert("epl-2.0"@[3] != "epl 2.0"@[3]);
    reveal_strlit("mpl 2.0");
    assert("epl-2.0"@[0] != "mpl 2.0"@[0]);
    reveal_strlit("mit");
    reveal_strlit("apache license 2.0");
    reveal_strlit("apache-2.0");
    reveal_strlit("bsd 2-clause");
    reveal_strlit("bsd 2 clause");
    reveal_strlit("bsd 3-clause");
    reveal_strlit("bsd 3 clause");
    reveal_strlit("gpl v3");
    reveal_strlit("gnu general public license v3");
    reveal_strlit("gpl v2");
    reveal_strlit("gnu general public license v2");
    reveal_strlit("lgpl-3.0");
    reveal_strlit("gnu lesser general public license v3");
    reveal_strlit("lgpl v2.1");
    reveal_strlit("lgpl-2.1");
    reveal_strlit("gnu lesser general public license v2.1");
    reveal_strlit("eclipse public license 2.0");
    reveal_strlit("mozilla public license 2.0");
    let id = "EPL-2.0"@;
    assert(all_ascii(id)) by {
        assert forall|i: int| 0 <= i < id.len() implies (#[trigger] id[i] as u32) < 128 by {
            assert(0 <= i < 7);
        }
    }
    assert(lowercase(id) =~= "epl-2.0"@);
    assert(known_spdx("epl-2.0"@) == None::<Seq<char>>);
}

/// `MPL-2.0` normalises to itself.
proof fn lemma_spdx_fixed_mpl_2_0()
    ensures
        normalized_spdx("MPL-2.0"@) == "MPL-2.0"@,
{
    reveal_strlit("MPL-2.0");
    reveal_strlit("mpl-2.0");
    reveal_strlit("gpl-3.0");
    assert("mpl-2.0"@[0] != "gpl-3.0"@[0]);
    reveal_strlit("gpl-2.0");
    assert("mpl-2.0"@[0] != "gpl-2.0"@[0]);
    reveal_strlit("lgpl v3");
    assert("mpl-2.0"@[0] != "lgpl v3"@[0]);
    reveal_strlit("epl 2.0");
    assert("mpl-2.0"@[0] != "epl 2.0"@[0]);
    reveal_strlit("mpl 2.0");
    assert("mpl-2.0"@[3] != "mpl 2.0"@[3]);
    reveal_strlit("mit");
    reveal_strlit("apache license 2.0");
    reveal_strlit("apache-2.0");
    reveal_strlit("bsd 2-clause");
    reveal_strlit("bsd 2 clause");
    reveal_strlit("bsd 3-clause");
    reveal_strlit("bsd 3 clause");
    reveal_strlit("gpl v3");
    reveal_strlit("gnu general public license v3");
    reveal_strlit("gpl v2");
    reveal_strlit("gnu general public license v2");
    reveal_strlit("lgpl-3.0");
    reveal_strlit("gnu lesser general public license v3");
    reveal_strlit("lgpl v2.1");
    reveal_strlit("lgpl-2.1");
    reveal_strlit("gnu lesser general public license v2.1");
    reveal_strlit("eclipse public license 2.0");
    reveal_strlit("mozilla public license 2.0");
    let id = "MPL-2.0"@;
    assert(all_ascii(id)) by {
        assert forall|i: int| 0 <= i < id.len() implies (#[trigger] id[i] as u32) < 128 by {
            assert(0 <= i < 7);
        }
    }
    assert(lowercase(id) =~= "mpl-2.0"@);
    assert(known_spdx("mpl-2.0"@) == None::<Seq<char>>);
}

/// Each SPDX id that a known name gives normalises to itself.
proof fn lemma_spdx_id_fixed(id: Seq<char>)
    requires
        exists|l: Seq<char>| known_spdx(l) == Some(id),
    ensures
        normalized_spdx(id) == id,
{
    let l = choose|l: Seq<char>| known_spdx(l) == Some(id);
    if id == "MIT"@ {
        lemma_spdx_fixed_mit();
    } else if id == "Apache-2.0"@ {
        lemma_spdx_fixed_apache_2_0();
    } else if id == "BSD-2-Clause"@ {
        lemma_spdx_fixed_bsd_2_clause();
    } else if id == "BSD-3-Clause"@ {
        lemma_spdx_fixed_bsd_3_clause();
    } else if id == "GPL-3.0"@ {
        lemma_spdx_fixed_gpl_3_0();
    } else if id == "GPL-2.0"@ {
        lemma_spdx_fixed_gpl_2_0();
    } else if id == "LGPL-3.0"@ {
        lemma_spdx_fixed_lgpl_3_0();
    } else if id == "LGPL-2.1"@ {
        lemma_spdx_fixed_lgpl_2_1();
    } else if id == "EPL-2.0"@ {
        lemma_spdx_fixed_epl_2_0();
    } else if id == "MPL-2.0"@ {
        lemma_spdx_fixed_mpl_2_0();
    }
}

/// Normalising a license name twice gives what normalising once gives.
pub proof fn lemma_normalize_spdx_twice(license: Seq<char>)
    ensures
        normalized_spdx(normalized_spdx(license)) == normalized_spdx(license),
{
    if let Some(id) = known_spdx(lowercase(license)) {
        lemma_spdx_id_fixed(id);
    }
}

/// Category of an SPDX id.
pub open spec fn category_of(spdx: Seq<char>) -> LicenseCategory {
    if spdx == "MIT"@ || spdx == "Apache-2.0"@ || spdx == "BSD-2-Clause"@ || spdx
        == "BSD-3-Clause"@ || spdx == "ISC"@ || spdx == "0BSD"@ {
        LicenseCategory::Permissive
    } else if spdx == "LGPL-2.1"@ || spdx == "LGPL-3.0"@ || spdx == "MPL-2.0"@ || spdx
        == "EPL-2.0"@ {
        LicenseCategory::WeakCopyleft
    } else if spdx == "GPL-2.0"@ || spdx == "GPL-3.0"@ || spdx == "AGPL-3.0"@ {
        LicenseCategory::StrongCopyleft
    } else {
        LicenseCategory::Unknown
    }
}

/// The license name that a POM names first: the text between the first
/// `<license><name>` and the next `</name>`, or `Unknown`.
pub open spec fn pom_license(pom: Seq<char>) -> Seq<char> {
    match find(pom, "<license><name>"@) {
        Some(i) => {
            let rest = pom.subrange(i + "<license><name>"@.len(), pom.len() as int);
            match find(rest, "</name>"@) {
                Some(j) => rest.subrange(0, j),
                None => "Unknown"@,
            }
        },
        None => "Unknown"@,
    }
}

/// The SPDX id that a lower-cased license name is known by, if any.
pub fn spdx_of_lowercase(l: &str) -> (r: Option<String>)
    ensures
        match r {
            Some(id) => known_spdx(l@) == Some(id@),
            None => known_spdx(l@) is None,
        },
{
    if str_eq(l, "mit") {
        Some(owned("MIT"))
    } else if str_eq(l, "apache license 2.0") || str_eq(l, "apache-2.0") {
        Some(owned("Apache-2.0"))
    } else if str_eq(l, "bsd 2-clause") || str_eq(l, "bsd 2 clause") {
        Some(owned("BSD-2-Clause"))
    } else if str_eq(l, "bsd 3-clause") || str_eq(l, "bsd 3 clause") {
        Some(owned("BSD-3-Clause"))
    } else if str_eq(l, "gpl v3") || str_eq(l, "gpl-3.0") || str_eq(
        l,
        "gnu general public license v3",
    ) {
        Some(owned("GPL-3.0"))
    } else if str_eq(l, "gpl v2") || str_eq(l, "gpl-2.0") || str_eq(
        l,
        "gnu general public license v2",
    ) {
        Some(owned("GPL-2.0"))
    } else if str_eq(l, "lgpl v3") || str_eq(l, "lgpl-3.0") || str_eq(
        l,
        "gnu lesser general public license v3",
    ) {
        Some(owned("LGPL-3.0"))
    } else if str_eq(l, "lgpl v2.1") || str_eq(l, "lgpl-2.1") || str_eq(
        l,
        "gnu lesser general public license v2.1",
    ) {
        Some(owned("LGPL-2.1"))
    } else if str_eq(l, "epl 2.0") || str_eq(l, "eclipse public license 2.0") {
        Some(owned("EPL-2.0"))
    } else if str_eq(l, "mpl 2.0") || str_eq(l, "mozilla public license 2.0") {
        Some(owned("MPL-2.0"))
    } else {
        None
    }
}

/// Normalises a license name to its SPDX id (names compared without case).
pub fn normalize_spdx_id(license: &str) -> (r: String)
    ensures
        r@ == normalized_spdx(license@),
{
    let l = to_lowercase(license);
    match spdx_of_lowercase(l.as_str()) {
        Some(id) => id,
        None => owned(license),
    }
}

/// Classifies an SPDX id.
pub fn categorize_license(spdx_id: &str) -> (r: LicenseCategory)
    ensures
        r == category_of(spdx_id@),
{
    let s = spdx_id;
    if str_eq(s, "MIT") || str_eq(s, "Apache-2.0") || str_eq(s, "BSD-2-Clause") || str_eq(
        s,
        "BSD-3-Clause",
    ) || str_eq(s, "ISC") || str_eq(s, "0BSD") {
        LicenseCategory::Permissive
    } else if str_eq(s, "LGPL-2.1") || str_eq(s, "LGPL-3.0") || str_eq(s, "MPL-2.0") || str_eq(
        s,
        "EPL-2.0",
    ) {
        LicenseCategory::WeakCopyleft
    } else if str_eq(s, "GPL-2.0") || str_eq(s, "GPL-3.0") || str_eq(s, "AGPL-3.0") {
        LicenseCategory::StrongCopyleft
    } else {
        LicenseCategory::Unknown
    }
}

/// The first license name of a POM text, or `Unknown`.
pub fn extract_license_from_pom(pom: &str) -> (r: String)
    ensures
        r@ == pom_license(pom@),
{
    let pv = chars_of(pom);
    let open = chars_of("<license><name>");
    let close = chars_of("</name>");
    match find_seq(&pv, &open) {
        Some(i) => {
            let start = i + open.len();
            let rest_s = string_of(&pv, start, pv.len());
            let rest = chars_of(rest_s.as_str());
            match find_seq(&rest, &close) {
                Some(j) => string_of(&rest, 0, j),
                None => owned("Unknown"),
            }
        },
        None => owned("Unknown"),
    }
}

// ───────────────────────────── compliance ─────────────────────────────

/// Number of dependencies in category `c`.
pub open spec fn count_category(s: Seq<LicenseInfo>, c: LicenseCategory) -> nat
    decreases s.len(),
{
    if s.len() == 0 {
        0
    } else {
        count_category(s.drop_last(), c) + if s.last().category == c {
            1nat
        } else {
            0nat
        }
    }
}

/// SPDX id of the first dependency in category `c`.
pub open spec fn first_spdx(s: Seq<LicenseInfo>, c: LicenseCategory) -> Option<Seq<char>>
    decreases s.len(),
{
    if s.len() == 0 {
        None
    } else if s[0].category == c {
        Some(s[0].spdx_id@)
    } else {
        first_spdx(s.drop_first(), c)
    }
}

/// Some dependency has SPDX id `id`.
pub open spec fn has_spdx(s: Seq<LicenseInfo>, id: Seq<char>) -> bool {
    exists|j: int| 0 <= j < s.len() && #[trigger] s[j].spdx_id@ == id
}

/// Some dependency has an SPDX id that starts with `p`.
pub open spec fn has_spdx_prefix(s: Seq<LicenseInfo>, p: Seq<char>) -> bool {
    exists|j: int| 0 <= j < s.len() && starts_with(#[trigger] s[j].spdx_id@, p)
}

/// The SPDX ids of the dependencies, in order.
pub open spec fn spdx_ids(s: Seq<LicenseInfo>) -> Seq<Seq<char>> {
    s.map_values(|l: LicenseInfo| l.spdx_id@)
}

/// Reason given for a strong-copyleft / permissive conflict.
pub open spec fn conflict_reason() -> Seq<char> {
    "GPL 与宽松许可证可能存在兼容性问题"@
}

/// Warning on the number of strong-copyleft dependencies.
pub open spec fn gpl_warning(n: nat) -> Seq<char> {
    "检测到 "@ + decimal(n) + " 个 GPL 许可证依赖，可能影响项目许可证选择"@
}

/// Warning on AGPL and GPL licenses together.
pub open spec fn mixed_gpl_warning() -> Seq<char> {
    "同时包含 AGPL 和 GPL 许可证，需注意版本兼容性"@
}

/// The warnings of the analysis, in order.
pub open spec fn expected_warnings(s: Seq<LicenseInfo>) -> Seq<Seq<char>> {
    let n = count_category(s, LicenseCategory::StrongCopyleft);
    let w = if n > 0 {
        seq![gpl_warning(n)]
    } else {
        Seq::empty()
    };
    if has_spdx(s, "AGPL-3.0"@) && has_spdx_prefix(s, "GPL"@) {
        w.push(mixed_gpl_warning())
    } else {
        w
    }
}

proof fn lemma_first_spdx_step(s: Seq<LicenseInfo>, c: LicenseCategory, i: int)
    requires
        0 <= i < s.len(),
    ensures
        first_spdx(s.skip(i), c) == if s[i].category == c {
            Some(s[i].spdx_id@)
        } else {
            first_spdx(s.skip(i + 1), c)
        },
{
    assert(s.skip(i).drop_first() =~= s.skip(i + 1));
    assert(s.skip(i)[0] == s[i]);
}

proof fn lemma_count_step(s: Seq<LicenseInfo>, c: LicenseCategory, i: int)
    requires
        0 <= i < s.len(),
    ensures
        count_category(s.take(i + 1), c) == count_category(s.take(i), c) + if s[i].category
            == c {
            1nat
        } else {
            0nat
        },
{
    assert(s.take(i + 1).drop_last() =~= s.take(i));
}

/// The four category counts add up to the number of dependencies.
pub proof fn lemma_category_counts_total(s: Seq<LicenseInfo>)
    ensures
        count_category(s, LicenseCategory::Permissive) + count_category(
            s,
            LicenseCategory::WeakCopyleft,
        ) + count_category(s, LicenseCategory::StrongCopyleft) + count_category(
            s,
            LicenseCategory::Unknown,
        ) == s.len(),
    decreases s.len(),
{
    if s.len() > 0 {
        lemma_category_counts_total(s.drop_last());
    }
}

/// No dependency of category `c` means no first one.
pub proof fn lemma_first_spdx_none(s: Seq<LicenseInfo>, c: LicenseCategory)
    ensures
        (first_spdx(s, c) is None) <==> count_category(s, c) == 0,
    decreases s.len(),
{
    if s.len() > 0 {
        lemma_first_spdx_none(s.drop_first(), c);
        lemma_count_front(s, c);
    }
}

proof fn lemma_count_front(s: Seq<LicenseInfo>, c: LicenseCategory)
    requires
        s.len() > 0,
    ensures
        count_category(s, c) == count_category(s.drop_first(), c) + if s[0].category == c {
            1nat
        } else {
            0nat
        },
    decreases s.len(),
{
    if s.len() > 1 {
        lemma_count_front(s.drop_last(), c);
        assert(s.drop_last().drop_first() =~= s.drop_first().drop_last());
        assert(s.drop_last()[0] == s[0]);
        assert(s.drop_first().last() == s.last());
    } else {
        assert(s.drop_first().len() == 0);
        assert(s.drop_last().len() == 0);
        assert(s.last() == s[0]);
        assert(count_category(s.drop_first(), c) == 0);
        assert(count_category(s.drop_last(), c) == 0);
    }
}

/// Analyses the licenses of a set of dependencies: a strong-copyleft
/// license together with a permissive one is a conflict; strong-copyleft
/// licenses and AGPL beside GPL give warnings; the summary counts each
/// category and each SPDX id.
pub fn analyze_compatibility(licenses: &[LicenseInfo]) -> (r: ComplianceReport)
    ensures
        ({
            let s = licenses@;
            let strong = first_spdx(s, LicenseCategory::StrongCopyleft);
            let perm = first_spdx(s, LicenseCategory::Permissive);
            &&& (if strong is Some && perm is Some {
                &&& r.conflicts@.len() == 1
                &&& r.conflicts@[0].license1@ == strong->0
                &&& r.conflicts@[0].license2@ == perm->0
                &&& r.conflicts@[0].reason@ == conflict_reason()
            } else {
                r.conflicts@.len() == 0
            })
            &&& r.compatible == (r.conflicts@.len() == 0)
            &&& r.compatible == (count_category(s, LicenseCategory::StrongCopyleft) == 0
                || count_category(s, LicenseCategory::Permissive) == 0)
            &&& r.warnings@.map_values(|w: String| w@) == expected_warnings(s)
            &&& r.summary.total_dependencies == s.len()
            &&& r.summary.permissive == count_category(s, LicenseCategory::Permissive)
            &&& r.summary.weak_copyleft == count_category(s, LicenseCategory::WeakCopyleft)
            &&& r.summary.strong_copyleft == count_category(s, LicenseCategory::StrongCopyleft)
            &&& r.summary.unknown == count_category(s, LicenseCategory::Unknown)
            &&& r.summary.permissive + r.summary.weak_copyleft + r.summary.strong_copyleft
                + r.summary.unknown == r.summary.total_dependencies
            &&& count_views(r.summary.license_counts@) == tally(spdx_ids(s))
        }),
{
    let ghost s = licenses@;
    let n = licenses.len();
    let mut permissive: usize = 0;
    let mut weak: usize = 0;
    let mut strong: usize = 0;
    let mut unknown: usize = 0;
    let mut first_strong: Option<String> = None;
    let mut first_perm: Option<String> = None;
    let mut has_agpl = false;
    let mut has_gpl = false;
    let mut ids: Vec<String> = Vec::new();
    let mut i: usize = 0;
    assert(s.skip(0) =~= s);
    assert(s.take(0) =~= Seq::<LicenseInfo>::empty());
    while i < n
        invariant
            n == s.len(),
            s == licenses@,
            i <= n,
            permissive == count_category(s.take(i as int), LicenseCategory::Permissive),
            weak == count_category(s.take(i as int), LicenseCategory::WeakCopyleft),
            strong == count_category(s.take(i as int), LicenseCategory::StrongCopyleft),
            unknown == count_category(s.take(i as int), LicenseCategory::Unknown),
            permissive + weak + strong + unknown == i,
            match first_strong {
                Some(x) => first_spdx(s, LicenseCategory::StrongCopyleft) == Some(x@),
                None => first_spdx(s, LicenseCategory::StrongCopyleft) == first_spdx(
                    s.skip(i as int),
                    LicenseCategory::StrongCopyleft,
                ),
            },
            match first_perm {
                Some(x) => first_spdx(s, LicenseCategory::Permissive) == Some(x@),
                None => first_spdx(s, LicenseCategory::Permissive) == first_spdx(
                    s.skip(i as int),
                    LicenseCategory::Permissive,
                ),
            },
            has_agpl == has_spdx(s.take(i as int), "AGPL-3.0"@),
            has_gpl == has_spdx_prefix(s.take(i as int), "GPL"@),
            ids@.map_values(|x: String| x@) == spdx_ids(s.take(i as int)),
        decreases n - i,
    {
        let l = &licenses[i];
        proof {
            lemma_count_step(s, LicenseCategory::Permissive, i as int);
            lemma_count_step(s, LicenseCategory::WeakCopyleft, i as int);
            lemma_count_step(s, LicenseCategory::StrongCopyleft, i as int);
            lemma_count_step(s, LicenseCategory::Unknown, i as int);
            lemma_first_spdx_step(s, LicenseCategory::StrongCopyleft, i as int);
            lemma_first_spdx_step(s, LicenseCategory::Permissive, i as int);
        }
        match l.category {
            LicenseCategory::Permissive => {
                permissive += 1;
                if first_perm.is_none() {
                    first_perm = Some(l.spdx_id.clone());
                }
            },
            LicenseCategory::WeakCopyleft => {
                weak += 1;
            },
            LicenseCategory::StrongCopyleft => {
                strong += 1;
                if first_strong.is_none() {
                    first_strong = Some(l.spdx_id.clone());
                }
            },
            LicenseCategory::Unknown => {
                unknown += 1;
            },
        }
        let is_agpl = str_eq(l.spdx_id.as_str(), "AGPL-3.0");
        let is_gpl = str_starts_with(l.spdx_id.as_str(), "GPL");
        proof {
            let t = s.take(i as int);
            let t1 = s.take(i + 1);
            assert(t1[i as int] == s[i as int]);
            if is_agpl {
                assert(t1[i as int].spdx_id@ == "AGPL-3.0"@);
            }
            if has_spdx(t, "AGPL-3.0"@) {
                let j = choose|j: int| 0 <= j < t.len() && #[trigger] t[j].spdx_id@ == "AGPL-3.0"@;
                assert(t1[j] == t[j]);
            }
            if has_spdx(t1, "AGPL-3.0"@) && !is_agpl {
                let j = choose|j: int| 0 <= j < t1.len() && #[trigger] t1[j].spdx_id@ == "AGPL-3.0"@;
                assert(t[j] == t1[j]);
            }
            if is_gpl {
                assert(starts_with(t1[i as int].spdx_id@, "GPL"@));
            }
            if has_spdx_prefix(t, "GPL"@) {
                let j = choose|j: int| 0 <= j < t.len() && starts_with(#[trigger] t[j].spdx_id@, "GPL"@);
                assert(t1[j] == t[j]);
            }
            if has_spdx_prefix(t1, "GPL"@) && !is_gpl {
                let j = choose|j: int| 0 <= j < t1.len() && starts_with(#[trigger] t1[j].spdx_id@, "GPL"@);
                assert(t[j] == t1[j]);
            }
        }
        has_agpl = has_agpl || is_agpl;
        has_gpl = has_gpl || is_gpl;
        let ghost old_ids = ids@;
        ids.push(l.spdx_id.clone());
        proof {
            assert(ids@.map_values(|x: String| x@) =~= old_ids.map_values(|x: String| x@).push(
                l.spdx_id@,
            ));
            assert(spdx_ids(s.take(i + 1)) =~= spdx_ids(s.take(i as int)).push(l.spdx_id@));
        }
        i += 1;
    }
    assert(s.take(n as int) =~= s);
    assert(s.skip(n as int) =~= Seq::<LicenseInfo>::empty());
    proof {
        lemma_category_counts_total(s);
        lemma_first_spdx_none(s, LicenseCategory::StrongCopyleft);
        lemma_first_spdx_none(s, LicenseCategory::Permissive);
    }
    let mut conflicts: Vec<ComplianceConflict> = Vec::new();
    let mut warnings: Vec<String> = Vec::new();
    match (&first_strong, &first_perm) {
        (Some(a), Some(b)) => {
            conflicts.push(
                ComplianceConflict {
                    license1: a.clone(),
                    license2: b.clone(),
                    reason: owned("GPL 与宽松许可证可能存在兼容性问题"),
                },
            );
        },
        _ => {},
    }
    if strong > 0 {
        let d = usize_to_decimal(strong);
        warnings.push(concat3("检测到 ", d.as_str(), " 个 GPL 许可证依赖，可能影响项目许可证选择"));
    }
    if has_agpl && has_gpl {
        warnings.push(owned("同时包含 AGPL 和 GPL 许可证，需注意版本兼容性"));
    }
    proof {
        assert(warnings@.map_values(|w: String| w@) =~= expected_warnings(s));
    }
    let license_counts = tally_strings(&ids);
    let compatible = conflicts.len() == 0;
    ComplianceReport {
        compatible,
        conflicts,
        warnings,
        summary: LicenseSummary {
            total_dependencies: n,
            permissive,
            weak_copyleft: weak,
            strong_copyleft: strong,
            unknown,
            license_counts,
        },
    }
}

} // verus!
