//! The words that pairing phrases are made of.

use vstd::prelude::*;

use crate::text::chars_of;

verus! {

/// Letters in a word.
pub const WORD_LETTERS: usize = 5;

/// Words in a row.
pub const ROW_WORDS: usize = 16;

pub const ROW_0: &'static str = "acornactoragatealarmalbumalderamberangelangleankleappleapronarborarrowaspenatlas";

pub const ROW_1: &'static str = "atticbaconbadgebagelbakerbanjobasilbasinbeachbeardberrybirchbladeblazebloomboard";

pub const ROW_2: &'static str = "bonusbrassbreadbrickbrookbroombrushcabincablecacaocamelcanalcandycanoecargocedar";

pub const ROW_3: &'static str = "chairchalkcharmcheekcheerchesschestchickchiefcidercivicclampclerkcliffclockcloth";

pub const ROW_4: &'static str = "cloudclovecoastcocoacometcomiccoralcouchcranecratecreamcreekcrispcrowncrustdaily";

pub const ROW_5: &'static str = "daisydancedeltadenimdepotdiarydinerdoughdozendraftdramadreamdressdriftdrilleagle";

pub const ROW_6: &'static str = "earlyeartheaselelbowelderemberentryequaleventfablefancyfeastfencefiberfieldfinch";

pub const ROW_7: &'static str = "flameflaskfleetflintflockflourfluidflutefocusforgeforumframefreshfrontfrostfruit";

pub const ROW_8: &'static str = "geckogiantgladeglassgleamglobeglovegoosegracegraingrandgrapegrassgravygreengrove";

pub const ROW_9: &'static str = "guestguidehappyharpyhazelhearthedgeheronhingehobbyhoneyhorsehotelhouseidealigloo";

pub const ROW_A: &'static str = "inletivoryjellyjeweljointjollyjuicekarmakayakknifeknollkoalalabellapellargelatch";

pub const ROW_B: &'static str = "laserlayerlemonlevellightlilaclinenliverllamalocallodgelotuslunarlunchmagicmajor";

pub const ROW_C: &'static str = "mangomaplemarchmarshmedalmelonmeritmetalmetermodelmonthmoosemotormoundmousemusic";

pub const ROW_D: &'static str = "nachonervenoblenorthnovelnurseoasisoceanoliveonionoperaorbitorganotteroxidepaint";

pub const ROW_E: &'static str = "pandapanelpaperpastapatiopeachpearlpecanpennypetalphonephotopianopilotpixelplaza";

pub const ROW_F: &'static str = "plumepoppyprismpulsequailquartquiltradarravenridgeriverrobinscarfshellsolarspoon";

/// Sixteen rows of sixteen words: one word for each value of a byte.
pub open spec fn row(n: int) -> Seq<char> {
    if n == 0 {
        ROW_0@
    } else if n == 1 {
        ROW_1@
    } else if n == 2 {
        ROW_2@
    } else if n == 3 {
        ROW_3@
    } else if n == 4 {
        ROW_4@
    } else if n == 5 {
        ROW_5@
    } else if n == 6 {
        ROW_6@
    } else if n == 7 {
        ROW_7@
    } else if n == 8 {
        ROW_8@
    } else if n == 9 {
        ROW_9@
    } else if n == 10 {
        ROW_A@
    } else if n == 11 {
        ROW_B@
    } else if n == 12 {
        ROW_C@
    } else if n == 13 {
        ROW_D@
    } else if n == 14 {
        ROW_E@
    } else {
        ROW_F@
    }
}

/// The word for a byte.
pub open spec fn word(byte: int) -> Seq<char> {
    row(byte / 16).subrange((byte % 16) * 5, (byte % 16) * 5 + 5)
}

/// The words, one by one.
pub open spec fn words() -> Seq<Seq<char>> {
    Seq::new(256, |i: int| word(i))
}

pub open spec fn lowercase(c: char) -> bool {
    'a' <= c <= 'z'
}

/// The first `n` characters are lowercase letters.
pub open spec fn lowercase_until(s: Seq<char>, n: nat) -> bool
    decreases n,
{
    n == 0 || (lowercase(s[n - 1]) && lowercase_until(s, (n - 1) as nat))
}

proof fn lemma_lowercase_at(s: Seq<char>, n: nat, i: int)
    requires
        lowercase_until(s, n),
        0 <= i < n,
    ensures
        lowercase(s[i]),
    decreases n,
{
    if i < n - 1 {
        lemma_lowercase_at(s, (n - 1) as nat, i);
    }
}

proof fn lemma_row_0()
    ensures
        ROW_0@.len() == 80,
        lowercase_until(ROW_0@, 80),
{
    reveal_strlit("acornactoragatealarmalbumalderamberangelangleankleappleapronarborarrowaspenatlas");
    reveal_with_fuel(lowercase_until, 81);
}

proof fn lemma_row_1()
    ensures
        ROW_1@.len() == 80,
        lowercase_until(ROW_1@, 80),
{
    reveal_strlit("atticbaconbadgebagelbakerbanjobasilbasinbeachbeardberrybirchbladeblazebloomboard");
    reveal_with_fuel(lowercase_until, 81);
}

proof fn lemma_row_2()
    ensures
        ROW_2@.len() == 80,
        lowercase_until(ROW_2@, 80),
{
    reveal_strlit("bonusbrassbreadbrickbrookbroombrushcabincablecacaocamelcanalcandycanoecargocedar");
    reveal_with_fuel(lowercase_until, 81);
}

proof fn lemma_row_3()
    ensures
        ROW_3@.len() == 80,
        lowercase_until(ROW_3@, 80),
{
    reveal_strlit("chairchalkcharmcheekcheerchesschestchickchiefcidercivicclampclerkcliffclockcloth");
    reveal_with_fuel(lowercase_until, 81);
}

proof fn lemma_row_4()
    ensures
        ROW_4@.len() == 80,
        lowercase_until(ROW_4@, 80),
{
    reveal_strlit("cloudclovecoastcocoacometcomiccoralcouchcranecratecreamcreekcrispcrowncrustdaily");
    reveal_with_fuel(lowercase_until, 81);
}

proof fn lemma_row_5()
    ensures
        ROW_5@.len() == 80,
        lowercase_until(ROW_5@, 80),
{
    reveal_strlit("daisydancedeltadenimdepotdiarydinerdoughdozendraftdramadreamdressdriftdrilleagle");
    reveal_with_fuel(lowercase_until, 81);
}

proof fn lemma_row_6()
    ensures
        ROW_6@.len() == 80,
        lowercase_until(ROW_6@, 80),
{
    reveal_strlit("earlyeartheaselelbowelderemberentryequaleventfablefancyfeastfencefiberfieldfinch");
    reveal_with_fuel(lowercase_until, 81);
}

proof fn lemma_row_7()
    ensures
        ROW_7@.len() == 80,
        lowercase_until(ROW_7@, 80),
{
    reveal_strlit("flameflaskfleetflintflockflourfluidflutefocusforgeforumframefreshfrontfrostfruit");
    reveal_with_fuel(lowercase_until, 81);
}

proof fn lemma_row_8()
    ensures
        ROW_8@.len() == 80,
        lowercase_until(ROW_8@, 80),
{
    reveal_strlit("geckogiantgladeglassgleamglobeglovegoosegracegraingrandgrapegrassgravygreengrove");
    reveal_with_fuel(lowercase_until, 81);
}

proof fn lemma_row_9()
    ensures
        ROW_9@.len() == 80,
        lowercase_until(ROW_9@, 80),
{
    reveal_strlit("guestguidehappyharpyhazelhearthedgeheronhingehobbyhoneyhorsehotelhouseidealigloo");
    reveal_with_fuel(lowercase_until, 81);
}

proof fn lemma_row_a()
    ensures
        ROW_A@.len() == 80,
        lowercase_until(ROW_A@, 80),
{
    reveal_strlit("inletivoryjellyjeweljointjollyjuicekarmakayakknifeknollkoalalabellapellargelatch");
    reveal_with_fuel(lowercase_until, 81);
}

proof fn lemma_row_b()
    ensures
        ROW_B@.len() == 80,
        lowercase_until(ROW_B@, 80),
{
    reveal_strlit("laserlayerlemonlevellightlilaclinenliverllamalocallodgelotuslunarlunchmagicmajor");
    reveal_with_fuel(lowercase_until, 81);
}

proof fn lemma_row_c()
    ensures
        ROW_C@.len() == 80,
        lowercase_until(ROW_C@, 80),
{
    reveal_strlit("mangomaplemarchmarshmedalmelonmeritmetalmetermodelmonthmoosemotormoundmousemusic");
    reveal_with_fuel(lowercase_until, 81);
}

proof fn lemma_row_d()
    ensures
        ROW_D@.len() == 80,
        lowercase_until(ROW_D@, 80),
{
    reveal_strlit("nachonervenoblenorthnovelnurseoasisoceanoliveonionoperaorbitorganotteroxidepaint");
    reveal_with_fuel(lowercase_until, 81);
}

proof fn lemma_row_e()
    ensures
        ROW_E@.len() == 80,
        lowercase_until(ROW_E@, 80),
{
    reveal_strlit("pandapanelpaperpastapatiopeachpearlpecanpennypetalphonephotopianopilotpixelplaza");
    reveal_with_fuel(lowercase_until, 81);
}

proof fn lemma_row_f()
    ensures
        ROW_F@.len() == 80,
        lowercase_until(ROW_F@, 80),
{
    reveal_strlit("plumepoppyprismpulsequailquartquiltradarravenridgeriverrobinscarfshellsolarspoon");
    reveal_with_fuel(lowercase_until, 81);
}

proof fn lemma_row(n: int)
    ensures
        row(n).len() == 80,
        lowercase_until(row(n), 80),
{
    lemma_row_0();
    lemma_row_1();
    lemma_row_2();
    lemma_row_3();
    lemma_row_4();
    lemma_row_5();
    lemma_row_6();
    lemma_row_7();
    lemma_row_8();
    lemma_row_9();
    lemma_row_a();
    lemma_row_b();
    lemma_row_c();
    lemma_row_d();
    lemma_row_e();
    lemma_row_f();
}

/// There are two hundred and fifty-six words, one for each value of a byte, and
/// each is five lowercase letters.
pub proof fn law_words(byte: u8)
    ensures
        words().len() == 256,
        words()[byte as int].len() == 5,
        forall|i: int| 0 <= i < 5 ==> lowercase(#[trigger] words()[byte as int][i]),
{
    let from = (byte as int % 16) * 5;
    lemma_row(byte as int / 16);
    assert forall|i: int| 0 <= i < 5 implies lowercase(#[trigger] words()[byte as int][i]) by {
        lemma_lowercase_at(row(byte as int / 16), 80, from + i);
        assert(words()[byte as int][i] == row(byte as int / 16)[from + i]);
    }
}

fn row_text(n: u8) -> (text: &'static str)
    ensures
        text@ == row(n as int),
{
    if n == 0 {
        ROW_0
    } else if n == 1 {
        ROW_1
    } else if n == 2 {
        ROW_2
    } else if n == 3 {
        ROW_3
    } else if n == 4 {
        ROW_4
    } else if n == 5 {
        ROW_5
    } else if n == 6 {
        ROW_6
    } else if n == 7 {
        ROW_7
    } else if n == 8 {
        ROW_8
    } else if n == 9 {
        ROW_9
    } else if n == 10 {
        ROW_A
    } else if n == 11 {
        ROW_B
    } else if n == 12 {
        ROW_C
    } else if n == 13 {
        ROW_D
    } else if n == 14 {
        ROW_E
    } else {
        ROW_F
    }
}

/// The word for a byte.
pub fn word_for(byte: u8) -> (text: String)
    ensures
        text@ == words()[byte as int],
{
    let row = chars_of(row_text(byte / 16));
    proof {
        lemma_row(byte as int / 16);
    }
    let from: usize = (byte % 16) as usize * WORD_LETTERS;
    let ghost whole = words()[byte as int];
    let mut text = String::new();
    let mut i: usize = 0;
    assert(text@ =~= whole.take(0));
    while i < WORD_LETTERS
        invariant
            i <= WORD_LETTERS,
            from == (byte % 16) * 5,
            row@ == crate::words::row(byte as int / 16),
            row@.len() == 80,
            whole == words()[byte as int],
            whole.len() == 5,
            text@ == whole.take(i as int),
        decreases WORD_LETTERS - i,
    {
        text.push(row[from + i]);
        i += 1;
        assert(text@ =~= whole.take(i as int));
    }
    assert(whole.take(5) =~= whole);
    text
}

/// The list of words.
pub fn word_list() -> (list: Vec<String>)
    ensures
        list.deep_view() == words(),
{
    let mut list: Vec<String> = Vec::new();
    let mut i: usize = 0;
    while i < 256
        invariant
            i <= 256,
            list.deep_view() =~= words().take(i as int),
        decreases 256 - i,
    {
        let ghost before = list.deep_view();
        let word = word_for(i as u8);
        let ghost added = word@;
        list.push(word);
        assert(list.deep_view() =~= before.push(added));
        i += 1;
        assert(list.deep_view() =~= words().take(i as int));
    }
    assert(words().take(256) =~= words());
    list
}

} // verus!
