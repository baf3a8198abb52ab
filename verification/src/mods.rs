//! The mods of a score as a score text shows them: `NM` for none,
//! otherwise each mod's acronym, with the speed of a rate mod and the
//! settings of difficulty adjust where they were changed.

use vstd::prelude::*;
use crate::text::{capped, join, views, join_strings, push_capped};

verus! {

/// What a mod carries that its text shows. Numbers arrive already
/// written out, with at most two decimals and no trailing zeros.
#[derive(Debug, Clone)]
pub enum ModKind {
    /// A mod shown by its acronym alone.
    Plain,
    /// Double time, nightcore, half time or daycore, with the speed
    /// change if it was set.
    RateChange { speed_change: Option<String> },
    /// Difficulty adjust, with each setting that was changed (the modes
    /// without circle size or approach rate leave those unset).
    DifficultyAdjust {
        circle_size: Option<String>,
        overall_difficulty: Option<String>,
        approach_rate: Option<String>,
        drain_rate: Option<String>,
    },
}

/// A mod of a score: its acronym and what its text shows besides.
#[derive(Debug, Clone)]
pub struct ModInfo {
    pub acronym: String,
    pub kind: ModKind,
}

/// One setting, as `<label><value>`, if it was set.
pub open spec fn setting(label: Seq<char>, value: Option<String>) -> Seq<Seq<char>> {
    match value {
        Some(v) => seq![label + v@],
        None => Seq::empty(),
    }
}

/// The changed settings of difficulty adjust, in the order circle size,
/// overall difficulty, approach rate, drain rate.
pub open spec fn adjust_settings(
    cs: Option<String>,
    od: Option<String>,
    ar: Option<String>,
    hp: Option<String>,
) -> Seq<Seq<char>> {
    setting(seq!['C', 'S'], cs) + setting(seq!['O', 'D'], od) + setting(seq!['A', 'R'], ar)
        + setting(seq!['H', 'P'], hp)
}

/// The text of one mod.
pub open spec fn mod_text(m: ModInfo) -> Seq<char> {
    match m.kind {
        ModKind::Plain => m.acronym@,
        ModKind::RateChange { speed_change } => match speed_change {
            Some(speed) => capped(m.acronym@, 8) + seq![' ', '('] + speed@ + seq!['x', ')'],
            None => m.acronym@,
        },
        ModKind::DifficultyAdjust {
            circle_size,
            overall_difficulty,
            approach_rate,
            drain_rate,
        } => {
            let settings = adjust_settings(circle_size, overall_difficulty, approach_rate, drain_rate);
            if settings.len() == 0 {
                m.acronym@
            } else {
                capped(m.acronym@, 8) + seq![' ', '('] + capped(join(settings, seq![',']), 64)
                    + seq![')']
            }
        },
    }
}

/// The texts of each of the mods.
pub open spec fn mod_texts(mods: Seq<ModInfo>) -> Seq<Seq<char>> {
    mods.map_values(|m: ModInfo| mod_text(m))
}

/// The text of a score's mods: `NM` when there are none, otherwise the
/// mods' texts separated by commas.
pub open spec fn mods_text(mods: Seq<ModInfo>) -> Seq<char> {
    if mods.len() == 0 {
        seq!['N', 'M']
    } else {
        join(mod_texts(mods), seq![','])
    }
}

fn push_setting(settings: &mut Vec<String>, label: &str, value: &Option<String>)
    ensures
        views(final(settings)@) == views(old(settings)@) + setting(label@, *value),
{
    match value {
        Some(v) => {
            let mut s = String::new();
            s.append(label);
            s.append(v.as_str());
            settings.push(s);
            proof {
                assert(views(settings@) =~= views(old(settings)@) + setting(label@, *value));
            }
        },
        None => {
            assert(views(settings@) =~= views(old(settings)@) + setting(label@, *value));
        },
    }
}

/// Writes the text of one mod.
pub fn format_mod(m: &ModInfo) -> (r: String)
    ensures
        r@ == mod_text(*m),
{
    match &m.kind {
        ModKind::Plain => m.acronym.clone(),
        ModKind::RateChange { speed_change } => match speed_change {
            Some(speed) => {
                let mut r = String::new();
                push_capped(&mut r, m.acronym.as_str(), 8);
                r.append(" (");
                r.append(speed.as_str());
                r.append("x)");
                proof {
                    reveal_strlit(" (");
                    reveal_strlit("x)");
                    assert(r@ =~= mod_text(*m));
                }
                r
            },
            None => m.acronym.clone(),
        },
        ModKind::DifficultyAdjust {
            circle_size,
            overall_difficulty,
            approach_rate,
            drain_rate,
        } => {
            let mut settings: Vec<String> = Vec::new();
            push_setting(&mut settings, "CS", circle_size);
            push_setting(&mut settings, "OD", overall_difficulty);
            push_setting(&mut settings, "AR", approach_rate);
            push_setting(&mut settings, "HP", drain_rate);
            proof {
                reveal_strlit("CS");
                reveal_strlit("OD");
                reveal_strlit("AR");
                reveal_strlit("HP");
                assert("CS"@ =~= seq!['C', 'S']);
                assert("OD"@ =~= seq!['O', 'D']);
                assert("AR"@ =~= seq!['A', 'R']);
                assert("HP"@ =~= seq!['H', 'P']);
                assert(views(settings@) =~= adjust_settings(
                    *circle_size,
                    *overall_difficulty,
                    *approach_rate,
                    *drain_rate,
                ));
            }
            if settings.len() == 0 {
                m.acronym.clone()
            } else {
                let joined = join_strings(&settings, ",");
                let mut r = String::new();
                push_capped(&mut r, m.acronym.as_str(), 8);
                r.append(" (");
                push_capped(&mut r, joined.as_str(), 64);
                r.append(")");
                proof {
                    reveal_strlit(" (");
                    reveal_strlit(")");
                    reveal_strlit(",");
                    assert(","@ =~= seq![',']);
                    assert(r@ =~= mod_text(*m));
                }
                r
            }
        },
    }
}

/// Writes the mods of a score: `NM` for none, otherwise each mod's text,
/// separated by commas.
pub fn fmt_with_settings(mods: &Vec<ModInfo>) -> (r: String)
    ensures
        r@ == mods_text(mods@),
{
    if mods.len() == 0 {
        let r = String::from_str("NM");
        proof {
            reveal_strlit("NM");
            assert(r@ =~= seq!['N', 'M']);
        }
        return r;
    }
    let mut parts: Vec<String> = Vec::new();
    let mut i: usize = 0;
    while i < mods.len()
        invariant
            i <= mods@.len(),
            parts@.len() == i,
            views(parts@) == mod_texts(mods@.take(i as int)),
        decreases mods@.len() - i,
    {
        let t = format_mod(&mods[i]);
        let ghost before = parts@;
        parts.push(t);
        i = i + 1;
        proof {
            let want = mod_texts(mods@.take(i as int));
            assert(views(parts@).len() == want.len());
            assert forall|k: int| 0 <= k < want.len() implies views(parts@)[k] == want[k] by {
                if k < i - 1 {
                    assert(views(before)[k] == mod_texts(mods@.take(i - 1))[k]);
                }
            }
            assert(views(parts@) =~= want);
        }
    }
    let r = join_strings(&parts, ",");
    proof {
        reveal_strlit(",");
        assert(","@ =~= seq![',']);
        assert(mods@.take(mods@.len() as int) =~= mods@);
    }
    r
}

} // verus!
