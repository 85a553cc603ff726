//! IPA (International Phonetic Alphabet) symbols for representing sounds.
use vstd::prelude::*;

verus! {

/// IPA phoneme symbols.
///
/// Organized by manner and place of articulation following IPA conventions.
#[derive(Debug, Clone, Copy, PartialEq, Eq, Hash)]
pub enum IPA {
    /// /ɑ/ - Open back unrounded (father, spa)
    OpenBackUnrounded,
    /// /æ/ - Near-open front unrounded (cat, bat)
    NearOpenFront,
    /// /ʌ/ - Open-mid back unrounded (strut, cup)
    OpenMidBack,
    /// /ə/ - Mid central (schwa) (about, sofa)
    Schwa,
    /// /ɔ/ - Open-mid back rounded (thought, law)
    OpenMidBackRounded,
    /// /ɛ/ - Open-mid front unrounded (bed, get)
    OpenMidFront,
    /// /ɜ/ - Open-mid central unrounded (girl, earth)
    OpenMidCentral,
    /// /ɝ/ - R-colored mid central stressed (bird, nurse)
    RColoredMid,
    /// /ɚ/ - R-colored schwa unstressed (butter, sister)
    RColoredSchwa,
    /// /ɪ/ - Near-close near-front unrounded (bit, kid)
    NearCloseFront,
    /// /i/ - Close front unrounded (fleece, see)
    CloseFront,
    /// /ʊ/ - Near-close near-back rounded (foot, put)
    NearCloseBack,
    /// /u/ - Close back rounded (goose, blue)
    CloseBack,
    /// /aʊ/ - (mouth, how)
    DiphthongAU,
    /// /aɪ/ - (price, my)
    DiphthongAI,
    /// /eɪ/ - (face, say)
    DiphthongEI,
    /// /oʊ/ - (goat, know)
    DiphthongOU,
    /// /ɔɪ/ - (choice, boy)
    DiphthongOI,
    /// /p/ - Voiceless bilabial stop (pat)
    VoicelessBilabialStop,
    /// /b/ - Voiced bilabial stop (bat)
    VoicedBilabialStop,
    /// /t/ - Voiceless alveolar stop (tap)
    VoicelessAlveolarStop,
    /// /d/ - Voiced alveolar stop (dad)
    VoicedAlveolarStop,
    /// /k/ - Voiceless velar stop (cat)
    VoicelessVelarStop,
    /// /g/ - Voiced velar stop (gap)
    VoicedVelarStop,
    /// /ʔ/ - Glottal stop (uh-oh)
    GlottalStop,
    /// /f/ - Voiceless labiodental fricative (fat)
    VoicelessLabiodentalFricative,
    /// /v/ - Voiced labiodental fricative (vat)
    VoicedLabiodentalFricative,
    /// /θ/ - Voiceless dental fricative (thin)
    VoicelessDentalFricative,
    /// /ð/ - Voiced dental fricative (this)
    VoicedDentalFricative,
    /// /s/ - Voiceless alveolar fricative (sat)
    VoicelessAlveolarFricative,
    /// /z/ - Voiced alveolar fricative (zap)
    VoicedAlveolarFricative,
    /// /ʃ/ - Voiceless postalveolar fricative (ship)
    VoicelessPostalveolarFricative,
    /// /ʒ/ - Voiced postalveolar fricative (measure)
    VoicedPostalveolarFricative,
    /// /h/ - Voiceless glottal fricative (hat)
    VoicelessGlottalFricative,
    /// /tʃ/ - Voiceless postalveolar affricate (chip)
    VoicelessPostalveolarAffricate,
    /// /dʒ/ - Voiced postalveolar affricate (jug)
    VoicedPostalveolarAffricate,
    /// /m/ - Bilabial nasal (map)
    BilabialNasal,
    /// /n/ - Alveolar nasal (nap)
    AlveolarNasal,
    /// /ŋ/ - Velar nasal (sing)
    VelarNasal,
    /// /ɲ/ - Palatal nasal (ñ in Spanish señor)
    PalatalNasal,
    /// /l/ - Alveolar lateral approximant (lap)
    AlveolarLateral,
    /// /ɹ/ - Alveolar approximant (rap) - American English R
    AlveolarApproximant,
    /// /r/ - Alveolar trill (Spanish perro) - also used as R variant
    AlveolarTrill,
    /// /w/ - Labial-velar approximant (wag)
    LabialVelarApproximant,
    /// /j/ - Palatal approximant (yes)
    PalatalApproximant,
    /// /ʍ/ - Voiceless labial-velar fricative (which - in some dialects)
    VoicelessLabialVelar,
    /// /ɾ/ - Alveolar tap (better in American English, Filipino r)
    AlveolarTap,
    /// /ː/ - Triangular colon: the previous phoneme has a long sound
    TriangularColon,
    /// /:/ - Regular colon: the previous phoneme has a long sound
    RegularColon,
}

impl IPA {
    /// The characters of the symbol's IPA representation.
    pub open spec fn symbol(self) -> Seq<char> {
        match self {
            IPA::OpenBackUnrounded => seq!['ɑ'],
            IPA::NearOpenFront => seq!['æ'],
            IPA::OpenMidBack => seq!['ʌ'],
            IPA::Schwa => seq!['ə'],
            IPA::OpenMidBackRounded => seq!['ɔ'],
            IPA::OpenMidFront => seq!['ɛ'],
            IPA::OpenMidCentral => seq!['ɜ'],
            IPA::RColoredMid => seq!['ɝ'],
            IPA::RColoredSchwa => seq!['ɚ'],
            IPA::NearCloseFront => seq!['ɪ'],
            IPA::CloseFront => seq!['i'],
            IPA::NearCloseBack => seq!['ʊ'],
            IPA::CloseBack => seq!['u'],
            IPA::DiphthongAU => seq!['a', 'ʊ'],
            IPA::DiphthongAI => seq!['a', 'ɪ'],
            IPA::DiphthongEI => seq!['e', 'ɪ'],
            IPA::DiphthongOU => seq!['o', 'ʊ'],
            IPA::DiphthongOI => seq!['ɔ', 'ɪ'],
            IPA::VoicelessBilabialStop => seq!['p'],
            IPA::VoicedBilabialStop => seq!['b'],
            IPA::VoicelessAlveolarStop => seq!['t'],
            IPA::VoicedAlveolarStop => seq!['d'],
            IPA::VoicelessVelarStop => seq!['k'],
            IPA::VoicedVelarStop => seq!['g'],
            IPA::GlottalStop => seq!['ʔ'],
            IPA::VoicelessLabiodentalFricative => seq!['f'],
            IPA::VoicedLabiodentalFricative => seq!['v'],
            IPA::VoicelessDentalFricative => seq!['θ'],
            IPA::VoicedDentalFricative => seq!['ð'],
            IPA::VoicelessAlveolarFricative => seq!['s'],
            IPA::VoicedAlveolarFricative => seq!['z'],
            IPA::VoicelessPostalveolarFricative => seq!['ʃ'],
            IPA::VoicedPostalveolarFricative => seq!['ʒ'],
            IPA::VoicelessGlottalFricative => seq!['h'],
            IPA::VoicelessPostalveolarAffricate => seq!['t', 'ʃ'],
            IPA::VoicedPostalveolarAffricate => seq!['d', 'ʒ'],
            IPA::BilabialNasal => seq!['m'],
            IPA::AlveolarNasal => seq!['n'],
            IPA::VelarNasal => seq!['ŋ'],
            IPA::PalatalNasal => seq!['ɲ'],
            IPA::AlveolarLateral => seq!['l'],
            IPA::AlveolarApproximant => seq!['ɹ'],
            IPA::AlveolarTrill => seq!['r'],
            IPA::LabialVelarApproximant => seq!['w'],
            IPA::PalatalApproximant => seq!['j'],
            IPA::VoicelessLabialVelar => seq!['ʍ'],
            IPA::AlveolarTap => seq!['ɾ'],
            IPA::TriangularColon => seq!['ː'],
            IPA::RegularColon => seq![':'],
        }
    }

    /// Get the IPA character representation.
    pub fn as_str(&self) -> (r: &'static str)
        ensures r@ == self.symbol(),
    {
        match self {
            IPA::OpenBackUnrounded => {
                proof {
                    reveal_strlit("ɑ");
                }
                "ɑ"
            },
            IPA::NearOpenFront => {
                proof {
                    reveal_strlit("æ");
                }
                "æ"
            },
            IPA::OpenMidBack => {
                proof {
                    reveal_strlit("ʌ");
                }
                "ʌ"
            },
            IPA::Schwa => {
                proof {
                    reveal_strlit("ə");
                }
                "ə"
            },
            IPA::OpenMidBackRounded => {
                proof {
                    reveal_strlit("ɔ");
                }
                "ɔ"
            },
            IPA::OpenMidFront => {
                proof {
                    reveal_strlit("ɛ");
                }
                "ɛ"
            },
            IPA::OpenMidCentral => {
                proof {
                    reveal_strlit("ɜ");
                }
                "ɜ"
            },
            IPA::RColoredMid => {
                proof {
                    reveal_strlit("ɝ");
                }
                "ɝ"
            },
            IPA::RColoredSchwa => {
                proof {
                    reveal_strlit("ɚ");
                }
                "ɚ"
            },
            IPA::NearCloseFront => {
                proof {
                    reveal_strlit("ɪ");
                }
                "ɪ"
            },
            IPA::CloseFront => {
                proof {
                    reveal_strlit("i");
                }
                "i"
            },
            IPA::NearCloseBack => {
                proof {
                    reveal_strlit("ʊ");
                }
                "ʊ"
            },
            IPA::CloseBack => {
                proof {
                    reveal_strlit("u");
                }
                "u"
            },
            IPA::DiphthongAU => {
                proof {
                    reveal_strlit("aʊ");
                }
                "aʊ"
            },
            IPA::DiphthongAI => {
                proof {
                    reveal_strlit("aɪ");
                }
                "aɪ"
            },
            IPA::DiphthongEI => {
                proof {
                    reveal_strlit("eɪ");
                }
                "eɪ"
            },
            IPA::DiphthongOU => {
                proof {
                    reveal_strlit("oʊ");
                }
                "oʊ"
            },
            IPA::DiphthongOI => {
                proof {
                    reveal_strlit("ɔɪ");
                }
                "ɔɪ"
            },
            IPA::VoicelessBilabialStop => {
                proof {
                    reveal_strlit("p");
                }
                "p"
            },
            IPA::VoicedBilabialStop => {
                proof {
                    reveal_strlit("b");
                }
                "b"
            },
            IPA::VoicelessAlveolarStop => {
                proof {
                    reveal_strlit("t");
                }
                "t"
            },
            IPA::VoicedAlveolarStop => {
                proof {
                    reveal_strlit("d");
                }
                "d"
            },
            IPA::VoicelessVelarStop => {
                proof {
                    reveal_strlit("k");
                }
                "k"
            },
            IPA::VoicedVelarStop => {
                proof {
                    reveal_strlit("g");
                }
                "g"
            },
            IPA::GlottalStop => {
                proof {
                    reveal_strlit("ʔ");
                }
                "ʔ"
            },
            IPA::VoicelessLabiodentalFricative => {
                proof {
                    reveal_strlit("f");
                }
                "f"
            },
            IPA::VoicedLabiodentalFricative => {
                proof {
                    reveal_strlit("v");
                }
                "v"
            },
            IPA::VoicelessDentalFricative => {
                proof {
                    reveal_strlit("θ");
                }
                "θ"
            },
            IPA::VoicedDentalFricative => {
                proof {
                    reveal_strlit("ð");
                }
                "ð"
            },
            IPA::VoicelessAlveolarFricative => {
                proof {
                    reveal_strlit("s");
                }
                "s"
            },
            IPA::VoicedAlveolarFricative => {
                proof {
                    reveal_strlit("z");
                }
                "z"
            },
            IPA::VoicelessPostalveolarFricative => {
                proof {
                    reveal_strlit("ʃ");
                }
                "ʃ"
            },
            IPA::VoicedPostalveolarFricative => {
                proof {
                    reveal_strlit("ʒ");
                }
                "ʒ"
            },
            IPA::VoicelessGlottalFricative => {
                proof {
                    reveal_strlit("h");
                }
                "h"
            },
            IPA::VoicelessPostalveolarAffricate => {
                proof {
                    reveal_strlit("tʃ");
                }
                "tʃ"
            },
            IPA::VoicedPostalveolarAffricate => {
                proof {
                    reveal_strlit("dʒ");
                }
                "dʒ"
            },
            IPA::BilabialNasal => {
                proof {
                    reveal_strlit("m");
                }
                "m"
            },
            IPA::AlveolarNasal => {
                proof {
                    reveal_strlit("n");
                }
                "n"
            },
            IPA::VelarNasal => {
                proof {
                    reveal_strlit("ŋ");
                }
                "ŋ"
            },
            IPA::PalatalNasal => {
                proof {
                    reveal_strlit("ɲ");
                }
                "ɲ"
            },
            IPA::AlveolarLateral => {
                proof {
                    reveal_strlit("l");
                }
                "l"
            },
            IPA::AlveolarApproximant => {
                proof {
                    reveal_strlit("ɹ");
                }
                "ɹ"
            },
            IPA::AlveolarTrill => {
                proof {
                    reveal_strlit("r");
                }
                "r"
            },
            IPA::LabialVelarApproximant => {
                proof {
                    reveal_strlit("w");
                }
                "w"
            },
            IPA::PalatalApproximant => {
                proof {
                    reveal_strlit("j");
                }
                "j"
            },
            IPA::VoicelessLabialVelar => {
                proof {
                    reveal_strlit("ʍ");
                }
                "ʍ"
            },
            IPA::AlveolarTap => {
                proof {
                    reveal_strlit("ɾ");
                }
                "ɾ"
            },
            IPA::TriangularColon => {
                proof {
                    reveal_strlit("ː");
                }
                "ː"
            },
            IPA::RegularColon => {
                proof {
                    reveal_strlit(":");
                }
                ":"
            },
        }
    }
}

} // verus!
