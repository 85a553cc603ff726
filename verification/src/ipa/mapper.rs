//! Reading IPA symbols out of a transcription.
use vstd::prelude::*;

use super::symbols::IPA;
use crate::text::chars_of;

verus! {

/// The symbol that a two-character sequence names, if any: the diphthongs
/// and affricates.
pub open spec fn pair_symbol(a: char, b: char) -> Option<IPA> {
    if a == 'a' && b == 'ʊ' {
        Some(IPA::DiphthongAU)
    }
    else if a == 'e' && b == 'ɪ' {
        Some(IPA::DiphthongEI)
    }
    else if a == 'a' && b == 'ɪ' {
        Some(IPA::DiphthongAI)
    }
    else if a == 'o' && b == 'ʊ' {
        Some(IPA::DiphthongOU)
    }
    else if a == 'ɔ' && b == 'ɪ' {
        Some(IPA::DiphthongOI)
    }
    else if a == 't' && b == 'ʃ' {
        Some(IPA::VoicelessPostalveolarAffricate)
    }
    else if a == 'd' && b == 'ʒ' {
        Some(IPA::VoicedPostalveolarAffricate)
    }
 else {
        None
    }
}

/// The symbol that a single character names, if any.
pub open spec fn char_symbol(c: char) -> Option<IPA> {
    if c == 'ɑ' {
        Some(IPA::OpenBackUnrounded)
    }
    else if c == 'æ' {
        Some(IPA::NearOpenFront)
    }
    else if c == 'ʌ' {
        Some(IPA::OpenMidBack)
    }
    else if c == 'ɐ' {
        Some(IPA::OpenMidBack)
    }
    else if c == 'ə' {
        Some(IPA::Schwa)
    }
    else if c == 'ɔ' {
        Some(IPA::OpenMidBackRounded)
    }
    else if c == 'ɛ' {
        Some(IPA::OpenMidFront)
    }
    else if c == 'ɜ' {
        Some(IPA::OpenMidCentral)
    }
    else if c == 'ɝ' {
        Some(IPA::RColoredMid)
    }
    else if c == 'ɚ' {
        Some(IPA::RColoredSchwa)
    }
    else if c == 'ɪ' {
        Some(IPA::NearCloseFront)
    }
    else if c == 'ᵻ' {
        Some(IPA::NearCloseFront)
    }
    else if c == 'i' {
        Some(IPA::CloseFront)
    }
    else if c == 'ʊ' {
        Some(IPA::NearCloseBack)
    }
    else if c == 'u' {
        Some(IPA::CloseBack)
    }
    else if c == 'e' {
        Some(IPA::DiphthongEI)
    }
    else if c == 'o' {
        Some(IPA::DiphthongOU)
    }
    else if c == 'a' {
        Some(IPA::OpenBackUnrounded)
    }
    else if c == 'p' {
        Some(IPA::VoicelessBilabialStop)
    }
    else if c == 'b' {
        Some(IPA::VoicedBilabialStop)
    }
    else if c == 't' {
        Some(IPA::VoicelessAlveolarStop)
    }
    else if c == 'd' {
        Some(IPA::VoicedAlveolarStop)
    }
    else if c == 'k' {
        Some(IPA::VoicelessVelarStop)
    }
    else if c == 'g' {
        Some(IPA::VoicedVelarStop)
    }
    else if c == 'ɡ' {
        Some(IPA::VoicedVelarStop)
    }
    else if c == 'ʔ' {
        Some(IPA::GlottalStop)
    }
    else if c == 'f' {
        Some(IPA::VoicelessLabiodentalFricative)
    }
    else if c == 'v' {
        Some(IPA::VoicedLabiodentalFricative)
    }
    else if c == 'θ' {
        Some(IPA::VoicelessDentalFricative)
    }
    else if c == 'ð' {
        Some(IPA::VoicedDentalFricative)
    }
    else if c == 's' {
        Some(IPA::VoicelessAlveolarFricative)
    }
    else if c == 'z' {
        Some(IPA::VoicedAlveolarFricative)
    }
    else if c == 'ʃ' {
        Some(IPA::VoicelessPostalveolarFricative)
    }
    else if c == 'ʒ' {
        Some(IPA::VoicedPostalveolarFricative)
    }
    else if c == 'h' {
        Some(IPA::VoicelessGlottalFricative)
    }
    else if c == 'm' {
        Some(IPA::BilabialNasal)
    }
    else if c == 'n' {
        Some(IPA::AlveolarNasal)
    }
    else if c == 'ŋ' {
        Some(IPA::VelarNasal)
    }
    else if c == 'ɲ' {
        Some(IPA::PalatalNasal)
    }
    else if c == 'l' {
        Some(IPA::AlveolarLateral)
    }
    else if c == 'ɹ' {
        Some(IPA::AlveolarApproximant)
    }
    else if c == 'r' {
        Some(IPA::AlveolarTrill)
    }
    else if c == 'w' {
        Some(IPA::LabialVelarApproximant)
    }
    else if c == 'j' {
        Some(IPA::PalatalApproximant)
    }
    else if c == 'ʍ' {
        Some(IPA::VoicelessLabialVelar)
    }
    else if c == 'ɾ' {
        Some(IPA::AlveolarTap)
    }
 else {
        None
    }
}

/// The symbols read from position `i` on: a two-character symbol is
/// preferred to a one-character one, and characters that name no symbol are
/// skipped.
pub open spec fn tokens_from(cs: Seq<char>, i: int) -> Seq<IPA>
    decreases cs.len() - i,
{
    if i < 0 || i >= cs.len() {
        seq![]
    } else if i + 1 < cs.len() && pair_symbol(cs[i], cs[i + 1]) is Some {
        seq![pair_symbol(cs[i], cs[i + 1])->0] + tokens_from(cs, i + 2)
    } else if char_symbol(cs[i]) is Some {
        seq![char_symbol(cs[i])->0] + tokens_from(cs, i + 1)
    } else {
        tokens_from(cs, i + 1)
    }
}

/// The IPA symbols of a transcription.
pub open spec fn ipa_tokens(s: Seq<char>) -> Seq<IPA> {
    tokens_from(s, 0)
}

fn lookup_pair(a: char, b: char) -> (r: Option<IPA>)
    ensures r == pair_symbol(a, b),
{
    if a == 'a' && b == 'ʊ' {
        Some(IPA::DiphthongAU)
    }
    else if a == 'e' && b == 'ɪ' {
        Some(IPA::DiphthongEI)
    }
    else if a == 'a' && b == 'ɪ' {
        Some(IPA::DiphthongAI)
    }
    else if a == 'o' && b == 'ʊ' {
        Some(IPA::DiphthongOU)
    }
    else if a == 'ɔ' && b == 'ɪ' {
        Some(IPA::DiphthongOI)
    }
    else if a == 't' && b == 'ʃ' {
        Some(IPA::VoicelessPostalveolarAffricate)
    }
    else if a == 'd' && b == 'ʒ' {
        Some(IPA::VoicedPostalveolarAffricate)
    }
 else {
        None
    }
}

fn lookup_char(c: char) -> (r: Option<IPA>)
    ensures r == char_symbol(c),
{
    if c == 'ɑ' {
        Some(IPA::OpenBackUnrounded)
    }
    else if c == 'æ' {
        Some(IPA::NearOpenFront)
    }
    else if c == 'ʌ' {
        Some(IPA::OpenMidBack)
    }
    else if c == 'ɐ' {
        Some(IPA::OpenMidBack)
    }
    else if c == 'ə' {
        Some(IPA::Schwa)
    }
    else if c == 'ɔ' {
        Some(IPA::OpenMidBackRounded)
    }
    else if c == 'ɛ' {
        Some(IPA::OpenMidFront)
    }
    else if c == 'ɜ' {
        Some(IPA::OpenMidCentral)
    }
    else if c == 'ɝ' {
        Some(IPA::RColoredMid)
    }
    else if c == 'ɚ' {
        Some(IPA::RColoredSchwa)
    }
    else if c == 'ɪ' {
        Some(IPA::NearCloseFront)
    }
    else if c == 'ᵻ' {
        Some(IPA::NearCloseFront)
    }
    else if c == 'i' {
        Some(IPA::CloseFront)
    }
    else if c == 'ʊ' {
        Some(IPA::NearCloseBack)
    }
    else if c == 'u' {
        Some(IPA::CloseBack)
    }
    else if c == 'e' {
        Some(IPA::DiphthongEI)
    }
    else if c == 'o' {
        Some(IPA::DiphthongOU)
    }
    else if c == 'a' {
        Some(IPA::OpenBackUnrounded)
    }
    else if c == 'p' {
        Some(IPA::VoicelessBilabialStop)
    }
    else if c == 'b' {
        Some(IPA::VoicedBilabialStop)
    }
    else if c == 't' {
        Some(IPA::VoicelessAlveolarStop)
    }
    else if c == 'd' {
        Some(IPA::VoicedAlveolarStop)
    }
    else if c == 'k' {
        Some(IPA::VoicelessVelarStop)
    }
    else if c == 'g' {
        Some(IPA::VoicedVelarStop)
    }
    else if c == 'ɡ' {
        Some(IPA::VoicedVelarStop)
    }
    else if c == 'ʔ' {
        Some(IPA::GlottalStop)
    }
    else if c == 'f' {
        Some(IPA::VoicelessLabiodentalFricative)
    }
    else if c == 'v' {
        Some(IPA::VoicedLabiodentalFricative)
    }
    else if c == 'θ' {
        Some(IPA::VoicelessDentalFricative)
    }
    else if c == 'ð' {
        Some(IPA::VoicedDentalFricative)
    }
    else if c == 's' {
        Some(IPA::VoicelessAlveolarFricative)
    }
    else if c == 'z' {
        Some(IPA::VoicedAlveolarFricative)
    }
    else if c == 'ʃ' {
        Some(IPA::VoicelessPostalveolarFricative)
    }
    else if c == 'ʒ' {
        Some(IPA::VoicedPostalveolarFricative)
    }
    else if c == 'h' {
        Some(IPA::VoicelessGlottalFricative)
    }
    else if c == 'm' {
        Some(IPA::BilabialNasal)
    }
    else if c == 'n' {
        Some(IPA::AlveolarNasal)
    }
    else if c == 'ŋ' {
        Some(IPA::VelarNasal)
    }
    else if c == 'ɲ' {
        Some(IPA::PalatalNasal)
    }
    else if c == 'l' {
        Some(IPA::AlveolarLateral)
    }
    else if c == 'ɹ' {
        Some(IPA::AlveolarApproximant)
    }
    else if c == 'r' {
        Some(IPA::AlveolarTrill)
    }
    else if c == 'w' {
        Some(IPA::LabialVelarApproximant)
    }
    else if c == 'j' {
        Some(IPA::PalatalApproximant)
    }
    else if c == 'ʍ' {
        Some(IPA::VoicelessLabialVelar)
    }
    else if c == 'ɾ' {
        Some(IPA::AlveolarTap)
    }
 else {
        None
    }
}

/// Reads the IPA symbols of a transcription, left to right, taking a
/// two-character symbol where one starts and skipping unknown characters.
pub fn str_to_ipa(ipa: &str) -> (r: Vec<IPA>)
    ensures r@ == ipa_tokens(ipa@),
{
    let chars = chars_of(ipa);
    let mut tokens: Vec<IPA> = Vec::new();
    let mut i: usize = 0;
    while i < chars.len()
        invariant
            i <= chars.len() + 1,
            tokens@ + tokens_from(chars@, i as int) == tokens_from(chars@, 0),
        decreases chars.len() - i,
    {
        let ghost before = tokens@;
        if i + 1 < chars.len() {
            if let Some(symbol) = lookup_pair(chars[i], chars[i + 1]) {
                tokens.push(symbol);
                assert(tokens@ + tokens_from(chars@, i + 2) =~= before + tokens_from(chars@, i as int));
                i += 2;
                continue;
            }
        }
        if let Some(symbol) = lookup_char(chars[i]) {
            tokens.push(symbol);
            assert(tokens@ + tokens_from(chars@, i + 1) =~= before + tokens_from(chars@, i as int));
        }
        i += 1;
    }
    assert(tokens_from(chars@, i as int) =~= seq![]);
    assert(tokens@ =~= tokens_from(chars@, 0));
    tokens
}

/// Reading the printed symbol of a phoneme gives back that phoneme; the two
/// length marks, which name no phoneme of their own, read as nothing.
pub proof fn law_symbol_round_trip(p: IPA)
    ensures
        p != IPA::TriangularColon && p != IPA::RegularColon ==> ipa_tokens(p.symbol()) == seq![p],
        p == IPA::TriangularColon || p == IPA::RegularColon ==> ipa_tokens(p.symbol()) == Seq::<IPA>::empty(),
{
    reveal_with_fuel(tokens_from, 3);
    let s = p.symbol();
    assert(tokens_from(s, s.len() as int) =~= seq![]);
    if p == IPA::TriangularColon || p == IPA::RegularColon {
        assert(s.len() == 1);
        assert(char_symbol(s[0]) is None);
        assert(tokens_from(s, 0) =~= tokens_from(s, 1));
    } else if s.len() == 2 {
        assert(pair_symbol(s[0], s[1]) == Some(p));
        assert(tokens_from(s, 0) =~= seq![p] + tokens_from(s, 2));
    } else {
        assert(s.len() == 1);
        assert(char_symbol(s[0]) == Some(p));
        assert(tokens_from(s, 0) =~= seq![p] + tokens_from(s, 1));
    }
}

/// No two phonemes print the same symbol, and every symbol has one or two
/// characters.
pub proof fn law_symbols_distinct(v: IPA, w: IPA)
    ensures
        1 <= v.symbol().len() <= 2,
        v != w ==> v.symbol() != w.symbol(),
{
    law_symbol_round_trip(v);
    law_symbol_round_trip(w);
    if v != w && v.symbol() == w.symbol() {
        let cv = v == IPA::TriangularColon || v == IPA::RegularColon;
        let cw = w == IPA::TriangularColon || w == IPA::RegularColon;
        if cv && cw {
            assert(v.symbol()[0] != w.symbol()[0]);
        } else if !cv && !cw {
            assert(seq![v][0] == seq![w][0]);
        } else if cv {
            assert(seq![w].len() == 1);
        } else {
            assert(seq![v].len() == 1);
        }
    }
}

/// Each symbol read consumes at least one character.
pub proof fn law_tokens_not_longer(s: Seq<char>, i: int)
    requires 0 <= i <= s.len(),
    ensures tokens_from(s, i).len() <= s.len() - i,
    decreases s.len() - i,
{
    if i < s.len() {
        if i + 1 < s.len() && pair_symbol(s[i], s[i + 1]) is Some {
            law_tokens_not_longer(s, i + 2);
        } else {
            law_tokens_not_longer(s, i + 1);
        }
    }
}

} // verus!
