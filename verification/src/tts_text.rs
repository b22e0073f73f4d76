//! Shortening live-commerce text before synthesis: filler phrases go,
//! clauses carrying prices, stock, deadlines or calls to action are kept,
//! and the rest is cut to the policy's length.

use vstd::prelude::*;

use crate::lang::Lang;
use crate::stt::{is_sentence_end, is_sentence_end_char};
use crate::text::{
    chars_of, collapse_spaces, collapse_whitespace, contains_chars, contains_seq, is_digit,
    lemma_trim_shorter, occurs_at_exec, push_char, string_of, strs, take_at_most, trim_chars,
    trim_seq,
};
use crate::tts::{max_text_chars, max_tts_text_chars, TtsExpansionPolicy};

verus! {

/// `s` with every occurrence of `pat` removed, scanning left to right
/// without overlaps (`str::replace(pat, "")`).
pub open spec fn remove_all(s: Seq<char>, pat: Seq<char>) -> Seq<char>
    decreases s.len(),
{
    if pat.len() == 0 || s.len() < pat.len() {
        s
    } else if s.subrange(0, pat.len() as int) == pat {
        remove_all(s.subrange(pat.len() as int, s.len() as int), pat)
    } else {
        seq![s[0]] + remove_all(s.drop_first(), pat)
    }
}

/// Removes every occurrence of `pat` from `s`.
pub fn remove_all_chars(s: &Vec<char>, pat: &Vec<char>) -> (r: Vec<char>)
    requires
        pat@.len() > 0,
    ensures
        r@ == remove_all(s@, pat@),
{
    let n = s.len();
    let m = pat.len();
    let mut out: Vec<char> = Vec::new();
    let mut i: usize = 0;
    assert(s@.subrange(0, n as int) =~= s@);
    while i < n
        invariant
            n == s@.len(),
            m == pat@.len(),
            m > 0,
            i <= n,
            out@ + remove_all(s@.subrange(i as int, n as int), pat@) == remove_all(s@, pat@),
        decreases n - i,
    {
        let ghost rest = s@.subrange(i as int, n as int);
        if occurs_at_exec(s, pat, i) {
            proof {
                assert(rest.subrange(0, m as int) =~= s@.subrange(i as int, i + m));
                assert(rest.subrange(m as int, rest.len() as int) =~= s@.subrange(i + m, n as int));
            }
            i = i + m;
        } else {
            proof {
                assert(rest.drop_first() =~= s@.subrange(i + 1, n as int));
                if rest.len() >= m {
                    assert(rest.subrange(0, m as int) =~= s@.subrange(i as int, i + m));
                    assert(remove_all(rest, pat@) == seq![rest[0]] + remove_all(rest.drop_first(), pat@));
                } else {
                    let rest1 = s@.subrange(i + 1, n as int);
                    assert(remove_all(rest1, pat@) == rest1);
                    assert(rest =~= seq![rest[0]] + rest1);
                }
                assert(out@.push(s@[i as int]) + remove_all(s@.subrange(i + 1, n as int), pat@)
                    =~= out@ + (seq![rest[0]] + remove_all(rest.drop_first(), pat@)));
            }
            out.push(s[i]);
            i = i + 1;
        }
    }
    proof {
        assert(s@.subrange(n as int, n as int) =~= Seq::<char>::empty());
        assert(out@ + Seq::<char>::empty() =~= out@);
    }
    out
}

/// `s` with each pattern of `pats` removed in turn.
pub open spec fn remove_each(s: Seq<char>, pats: Seq<Seq<char>>) -> Seq<char>
    decreases pats.len(),
{
    if pats.len() == 0 {
        s
    } else {
        remove_all(remove_each(s, pats.drop_last()), pats.last())
    }
}

/// The filler phrases of live-commerce speech in each language.
pub open spec fn filler_phrases(lang: Lang) -> Seq<Seq<char>> {
    match lang {
        Lang::Ja => seq![
            "皆さん"@, "みなさん"@, "本当に"@, "ぜひ"@, "どうぞ"@, "お願いいたします"@,
            "お願いします"@, "させていただきます"@, "させていただいております"@,
            "となっております"@, "でございます"@, "ございます"@, "くださいませ"@, "ください"@,
        ],
        Lang::Zh => seq![
            "大家"@, "真的"@, "非常"@, "特别"@, "赶快"@, "现在就"@, "请大家"@, "一定要"@,
            "不要错过"@,
        ],
        Lang::Ko => seq![
            "여러분"@, "정말"@, "진짜"@, "너무"@, "꼭"@, "지금 바로"@, "부탁드립니다"@,
            "해주시고요"@, "해주시면 됩니다"@, "되겠습니다"@, "입니다"@,
        ],
        Lang::En => seq![
            "everyone"@, "really"@, "very"@, "please"@, "make sure to"@, "go ahead and"@,
            "right now"@, "don't miss it"@,
        ],
        Lang::Ru => Seq::empty(),
    }
}

/// The live-commerce text of `text` without fillers, its white space
/// collapsed.
pub open spec fn without_fillers(text: Seq<char>, lang: Lang) -> Seq<char> {
    collapse_spaces(remove_each(text, filler_phrases(lang)))
}

fn filler_list(lang: &Lang) -> (v: Vec<&'static str>)
    ensures
        v@.map_values(|s: &str| s@) == filler_phrases(*lang),
        forall|k: int| 0 <= k < v@.len() ==> v@[k]@.len() > 0,
{
    let v: Vec<&'static str> = match lang {
        Lang::Ja => vec![
            "皆さん", "みなさん", "本当に", "ぜひ", "どうぞ", "お願いいたします", "お願いします",
            "させていただきます", "させていただいております", "となっております", "でございます",
            "ございます", "くださいませ", "ください",
        ],
        Lang::Zh => vec![
            "大家", "真的", "非常", "特别", "赶快", "现在就", "请大家", "一定要", "不要错过",
        ],
        Lang::Ko => vec![
            "여러분", "정말", "진짜", "너무", "꼭", "지금 바로", "부탁드립니다", "해주시고요",
            "해주시면 됩니다", "되겠습니다", "입니다",
        ],
        Lang::En => vec![
            "everyone", "really", "very", "please", "make sure to", "go ahead and", "right now",
            "don't miss it",
        ],
        Lang::Ru => Vec::new(),
    };
    proof {
        reveal_strlit("皆さん");
        reveal_strlit("みなさん");
        reveal_strlit("本当に");
        reveal_strlit("ぜひ");
        reveal_strlit("どうぞ");
        reveal_strlit("お願いいたします");
        reveal_strlit("お願いします");
        reveal_strlit("させていただきます");
        reveal_strlit("させていただいております");
        reveal_strlit("となっております");
        reveal_strlit("でございます");
        reveal_strlit("ございます");
        reveal_strlit("くださいませ");
        reveal_strlit("ください");
        reveal_strlit("大家");
        reveal_strlit("真的");
        reveal_strlit("非常");
        reveal_strlit("特别");
        reveal_strlit("赶快");
        reveal_strlit("现在就");
        reveal_strlit("请大家");
        reveal_strlit("一定要");
        reveal_strlit("不要错过");
        reveal_strlit("여러분");
        reveal_strlit("정말");
        reveal_strlit("진짜");
        reveal_strlit("너무");
        reveal_strlit("꼭");
        reveal_strlit("지금 바로");
        reveal_strlit("부탁드립니다");
        reveal_strlit("해주시고요");
        reveal_strlit("해주시면 됩니다");
        reveal_strlit("되겠습니다");
        reveal_strlit("입니다");
        reveal_strlit("everyone");
        reveal_strlit("really");
        reveal_strlit("very");
        reveal_strlit("please");
        reveal_strlit("make sure to");
        reveal_strlit("go ahead and");
        reveal_strlit("right now");
        reveal_strlit("don't miss it");
        assert(v@.map_values(|s: &str| s@) =~= filler_phrases(*lang));
    }
    v
}

/// Removes the language's filler phrases and collapses the white space
/// left behind.
pub fn remove_live_commerce_filler(text: &str, target_lang: &Lang) -> (r: String)
    ensures
        r@ == without_fillers(text@, *target_lang),
{
    let fillers = filler_list(target_lang);
    let ghost pats = filler_phrases(*target_lang);
    let mut out = chars_of(text);
    let mut k: usize = 0;
    while k < fillers.len()
        invariant
            k <= fillers@.len(),
            fillers@.map_values(|s: &str| s@) == pats,
            forall|j: int| 0 <= j < fillers@.len() ==> fillers@[j]@.len() > 0,
            out@ == remove_each(text@, pats.subrange(0, k as int)),
        decreases fillers@.len() - k,
    {
        let pat = chars_of(fillers[k]);
        proof {
            assert(pats.subrange(0, k + 1).drop_last() =~= pats.subrange(0, k as int));
            assert(pats[k as int] == fillers@[k as int]@);
        }
        out = remove_all_chars(&out, &pat);
        k = k + 1;
    }
    assert(pats.subrange(0, fillers@.len() as int) =~= pats);
    let s = string_of(&out);
    collapse_whitespace(s.as_str())
}

/// The punctuation that ends a clause.
pub open spec fn is_clause_punct(c: char) -> bool {
    c == '.' || c == '!' || c == '?' || c == '\u{3002}' || c == '\u{ff01}' || c == '\u{ff1f}'
        || c == ',' || c == '\u{ff0c}' || c == ';' || c == '\u{ff1b}' || c == '\u{3001}'
}

/// Whether position `i` of `cs` ends a clause: clause punctuation, except a
/// comma between two ASCII digits (a thousands separator).
pub open spec fn is_clause_break(cs: Seq<char>, i: int) -> bool {
    let c = cs[i];
    let numeric = (c == ',' || c == '\u{ff0c}') && i >= 1 && is_digit(cs[i - 1]) && i + 1 < cs.len()
        && is_digit(cs[i + 1]);
    !numeric && is_clause_punct(c)
}

/// The clauses finished within the first `k` characters of `cs`, and the
/// clause being read.
pub open spec fn clause_state(cs: Seq<char>, k: nat) -> (Seq<Seq<char>>, Seq<char>)
    decreases k,
{
    if k == 0 || k > cs.len() {
        (Seq::empty(), Seq::empty())
    } else {
        let (cl, cur) = clause_state(cs, (k - 1) as nat);
        if is_clause_break(cs, k - 1) {
            let t = trim_seq(cur);
            (if t.len() > 0 { cl.push(t) } else { cl }, Seq::empty())
        } else {
            (cl, cur.push(cs[k - 1]))
        }
    }
}

/// The trimmed, non-blank clauses of `cs`, in order.
pub open spec fn clauses_of(cs: Seq<char>) -> Seq<Seq<char>> {
    let (cl, cur) = clause_state(cs, cs.len());
    let t = trim_seq(cur);
    if t.len() > 0 { cl.push(t) } else { cl }
}

fn is_clause_punct_char(c: char) -> (b: bool)
    ensures
        b == is_clause_punct(c),
{
    c == '.' || c == '!' || c == '?' || c == '\u{3002}' || c == '\u{ff01}' || c == '\u{ff1f}'
        || c == ',' || c == '\u{ff0c}' || c == ';' || c == '\u{ff1b}' || c == '\u{3001}'
}

fn is_ascii_digit(c: char) -> (b: bool)
    ensures
        b == is_digit(c),
{
    '0' <= c && c <= '9'
}

/// Splits a text into clauses at sentence and clause punctuation, keeping
/// thousands separators inside numbers.
pub fn split_live_commerce_clauses(text: &str) -> (v: Vec<String>)
    ensures
        strs(v@) == clauses_of(text@),
{
    let chars = chars_of(text);
    let n = chars.len();
    let mut clauses: Vec<String> = Vec::new();
    let mut current: Vec<char> = Vec::new();
    let mut idx: usize = 0;
    while idx < n
        invariant
            n == chars@.len(),
            chars@ == text@,
            idx <= n,
            (strs(clauses@), current@) == clause_state(text@, idx as nat),
        decreases n - idx,
    {
        let ch = chars[idx];
        let numeric_separator = (ch == ',' || ch == '\u{ff0c}') && idx >= 1 && is_ascii_digit(chars[idx - 1])
            && idx + 1 < n && is_ascii_digit(chars[idx + 1]);
        if !numeric_separator && is_clause_punct_char(ch) {
            let t = trim_chars(&current);
            if t.len() > 0 {
                let ghost before = strs(clauses@);
                clauses.push(string_of(&t));
                assert(strs(clauses@) =~= before.push(t@));
            }
            current = Vec::new();
        } else {
            current.push(ch);
        }
        idx = idx + 1;
    }
    let t = trim_chars(&current);
    if t.len() > 0 {
        let ghost before = strs(clauses@);
        clauses.push(string_of(&t));
        assert(strs(clauses@) =~= before.push(t@));
    }
    clauses
}

/// What `str::to_lowercase` gives for a text (Unicode lower-casing).
pub uninterp spec fn lowercase_of(s: Seq<char>) -> Seq<char>;

/// `str::to_lowercase`: the Unicode lower-case mapping of the text. Its
/// result is named, not stated; it depends on the text alone.
#[verifier::external_body]
fn to_lowercase(s: &str) -> (r: String)
    ensures
        r@ == lowercase_of(s@),
{
    s.to_lowercase()
}

/// The words that mark a clause as carrying a price, a discount, stock, a
/// deadline or a call to buy.
pub open spec fn important_markers() -> Seq<Seq<char>> {
    seq![
        "원"@, "원에"@, "원만"@, "円"@, "¥"@, "₩"@, "$"@, "%"@, "퍼센트"@, "割"@, "折"@, "折扣"@,
        "할인"@, "세일"@, "sale"@, "discount"@, "off"@, "재고"@, "수량"@, "남았"@, "개"@, "点"@,
        "個"@, "剩"@, "库存"@, "stock"@, "left"@, "오늘"@, "今"@, "今天"@, "today"@, "마감"@,
        "締切"@, "结束"@, "ends"@, "구매"@, "주문"@, "購入"@, "下单"@, "buy"@, "order"@,
    ]
}

/// Whether a clause holds an ASCII digit or, lower-cased, one of the
/// markers.
pub open spec fn is_important_clause(c: Seq<char>) -> bool {
    (exists|i: int| 0 <= i < c.len() && is_digit(c[i]))
        || (exists|k: int| 0 <= k < important_markers().len() && contains_seq(lowercase_of(c), important_markers()[k]))
}

/// Whether `w` is one of the words that mark a live-commerce clause as
/// important: prices and currencies, discounts, stock, deadlines and calls
/// to buy, in Korean, Japanese, Chinese and English.
pub open spec fn is_documented_marker(w: Seq<char>) -> bool {
        w == "원"@ || w == "원에"@ || w == "원만"@ || w == "円"@ || w == "¥"@ || w == "₩"@ || w == "$"@ ||
            w == "%"@ || w == "퍼센트"@ || w == "割"@ || w == "折"@ || w == "折扣"@ || w == "할인"@ || w == "세일"@ ||
            w == "sale"@ || w == "discount"@ || w == "off"@ || w == "재고"@ || w == "수량"@ || w == "남았"@ ||
            w == "개"@ || w == "点"@ || w == "個"@ || w == "剩"@ || w == "库存"@ || w == "stock"@ ||
            w == "left"@ || w == "오늘"@ || w == "今"@ || w == "今天"@ || w == "today"@ || w == "마감"@ ||
            w == "締切"@ || w == "结束"@ || w == "ends"@ || w == "구매"@ || w == "주문"@ || w == "購入"@ ||
            w == "下单"@ || w == "buy"@ || w == "order"@
}

proof fn lemma_documented_marker_listed(w: Seq<char>)
    requires
        is_documented_marker(w),
    ensures
        exists|k: int| 0 <= k < important_markers().len() && #[trigger] important_markers()[k] == w,
{
    assert(important_markers().len() == 41);
    if w == "원"@ {
        assert(important_markers()[0] == w);
    } else if w == "원에"@ {
        assert(important_markers()[1] == w);
    } else if w == "원만"@ {
        assert(important_markers()[2] == w);
    } else if w == "円"@ {
        assert(important_markers()[3] == w);
    } else if w == "¥"@ {
        assert(important_markers()[4] == w);
    } else if w == "₩"@ {
        assert(important_markers()[5] == w);
    } else if w == "$"@ {
        assert(important_markers()[6] == w);
    } else if w == "%"@ {
        assert(important_markers()[7] == w);
    } else if w == "퍼센트"@ {
        assert(important_markers()[8] == w);
    } else if w == "割"@ {
        assert(important_markers()[9] == w);
    } else if w == "折"@ {
        assert(important_markers()[10] == w);
    } else if w == "折扣"@ {
        assert(important_markers()[11] == w);
    } else if w == "할인"@ {
        assert(important_markers()[12] == w);
    } else if w == "세일"@ {
        assert(important_markers()[13] == w);
    } else if w == "sale"@ {
        assert(important_markers()[14] == w);
    } else if w == "discount"@ {
        assert(important_markers()[15] == w);
    } else if w == "off"@ {
        assert(important_markers()[16] == w);
    } else if w == "재고"@ {
        assert(important_markers()[17] == w);
    } else if w == "수량"@ {
        assert(important_markers()[18] == w);
    } else if w == "남았"@ {
        assert(important_markers()[19] == w);
    } else if w == "개"@ {
        assert(important_markers()[20] == w);
    } else if w == "点"@ {
        assert(important_markers()[21] == w);
    } else if w == "個"@ {
        assert(important_markers()[22] == w);
    } else if w == "剩"@ {
        assert(important_markers()[23] == w);
    } else if w == "库存"@ {
        assert(important_markers()[24] == w);
    } else if w == "stock"@ {
        assert(important_markers()[25] == w);
    } else if w == "left"@ {
        assert(important_markers()[26] == w);
    } else if w == "오늘"@ {
        assert(important_markers()[27] == w);
    } else if w == "今"@ {
        assert(important_markers()[28] == w);
    } else if w == "今天"@ {
        assert(important_markers()[29] == w);
    } else if w == "today"@ {
        assert(important_markers()[30] == w);
    } else if w == "마감"@ {
        assert(important_markers()[31] == w);
    } else if w == "締切"@ {
        assert(important_markers()[32] == w);
    } else if w == "结束"@ {
        assert(important_markers()[33] == w);
    } else if w == "ends"@ {
        assert(important_markers()[34] == w);
    } else if w == "구매"@ {
        assert(important_markers()[35] == w);
    } else if w == "주문"@ {
        assert(important_markers()[36] == w);
    } else if w == "購入"@ {
        assert(important_markers()[37] == w);
    } else if w == "下单"@ {
        assert(important_markers()[38] == w);
    } else if w == "buy"@ {
        assert(important_markers()[39] == w);
    } else if w == "order"@ {
        assert(important_markers()[40] == w);
    }
}

/// A clause is kept as important exactly when it holds an ASCII digit or,
/// lower-cased, one of the documented price, discount, stock, deadline and
/// call-to-buy words ("buy", "order", "구매", "주문", "購入", "下单", ...);
/// no other word makes a clause important.
pub proof fn lemma_important_clause_markers(c: Seq<char>)
    ensures
        (exists|i: int| 0 <= i < c.len() && is_digit(#[trigger] c[i])) ==> is_important_clause(c),
        forall|w: Seq<char>| is_documented_marker(w) && #[trigger] contains_seq(lowercase_of(c), w) ==> is_important_clause(c),
        is_important_clause(c) ==> (exists|i: int| 0 <= i < c.len() && is_digit(#[trigger] c[i]))
            || (exists|w: Seq<char>| is_documented_marker(w) && #[trigger] contains_seq(lowercase_of(c), w)),
{
    assert forall|w: Seq<char>| is_documented_marker(w) && #[trigger] contains_seq(lowercase_of(c), w) implies is_important_clause(c) by {
        lemma_documented_marker_listed(w);
        let k = choose|k: int| 0 <= k < important_markers().len() && #[trigger] important_markers()[k] == w;
        assert(contains_seq(lowercase_of(c), important_markers()[k]));
    }
    assert forall|k: int| 0 <= k < important_markers().len() implies is_documented_marker(#[trigger] important_markers()[k]) by {
        if k == 0 {
            assert(important_markers()[k] == "원"@);
        } else if k == 1 {
            assert(important_markers()[k] == "원에"@);
        } else if k == 2 {
            assert(important_markers()[k] == "원만"@);
        } else if k == 3 {
            assert(important_markers()[k] == "円"@);
        } else if k == 4 {
            assert(important_markers()[k] == "¥"@);
        } else if k == 5 {
            assert(important_markers()[k] == "₩"@);
        } else if k == 6 {
            assert(important_markers()[k] == "$"@);
        } else if k == 7 {
            assert(important_markers()[k] == "%"@);
        } else if k == 8 {
            assert(important_markers()[k] == "퍼센트"@);
        } else if k == 9 {
            assert(important_markers()[k] == "割"@);
        } else if k == 10 {
            assert(important_markers()[k] == "折"@);
        } else if k == 11 {
            assert(important_markers()[k] == "折扣"@);
        } else if k == 12 {
            assert(important_markers()[k] == "할인"@);
        } else if k == 13 {
            assert(important_markers()[k] == "세일"@);
        } else if k == 14 {
            assert(important_markers()[k] == "sale"@);
        } else if k == 15 {
            assert(important_markers()[k] == "discount"@);
        } else if k == 16 {
            assert(important_markers()[k] == "off"@);
        } else if k == 17 {
            assert(important_markers()[k] == "재고"@);
        } else if k == 18 {
            assert(important_markers()[k] == "수량"@);
        } else if k == 19 {
            assert(important_markers()[k] == "남았"@);
        } else if k == 20 {
            assert(important_markers()[k] == "개"@);
        } else if k == 21 {
            assert(important_markers()[k] == "点"@);
        } else if k == 22 {
            assert(important_markers()[k] == "個"@);
        } else if k == 23 {
            assert(important_markers()[k] == "剩"@);
        } else if k == 24 {
            assert(important_markers()[k] == "库存"@);
        } else if k == 25 {
            assert(important_markers()[k] == "stock"@);
        } else if k == 26 {
            assert(important_markers()[k] == "left"@);
        } else if k == 27 {
            assert(important_markers()[k] == "오늘"@);
        } else if k == 28 {
            assert(important_markers()[k] == "今"@);
        } else if k == 29 {
            assert(important_markers()[k] == "今天"@);
        } else if k == 30 {
            assert(important_markers()[k] == "today"@);
        } else if k == 31 {
            assert(important_markers()[k] == "마감"@);
        } else if k == 32 {
            assert(important_markers()[k] == "締切"@);
        } else if k == 33 {
            assert(important_markers()[k] == "结束"@);
        } else if k == 34 {
            assert(important_markers()[k] == "ends"@);
        } else if k == 35 {
            assert(important_markers()[k] == "구매"@);
        } else if k == 36 {
            assert(important_markers()[k] == "주문"@);
        } else if k == 37 {
            assert(important_markers()[k] == "購入"@);
        } else if k == 38 {
            assert(important_markers()[k] == "下单"@);
        } else if k == 39 {
            assert(important_markers()[k] == "buy"@);
        } else if k == 40 {
            assert(important_markers()[k] == "order"@);
        }
    }
}

fn marker_list() -> (v: Vec<&'static str>)
    ensures
        v@.map_values(|s: &str| s@) == important_markers(),
{
    let v: Vec<&'static str> = vec![
        "원", "원에", "원만", "円", "¥", "₩", "$", "%", "퍼센트", "割", "折", "折扣", "할인", "세일",
        "sale", "discount", "off", "재고", "수량", "남았", "개", "点", "個", "剩", "库存", "stock",
        "left", "오늘", "今", "今天", "today", "마감", "締切", "结束", "ends", "구매", "주문", "購入",
        "下单", "buy", "order",
    ];
    assert(v@.map_values(|s: &str| s@) =~= important_markers());
    v
}

/// Whether a clause carries a number, a price, a discount, stock, a
/// deadline or a call to buy.
pub fn is_important_live_commerce_clause(clause: &str) -> (b: bool)
    ensures
        b == is_important_clause(clause@),
{
    let n = clause.unicode_len();
    let mut i: usize = 0;
    while i < n
        invariant
            n == clause@.len(),
            i <= n,
            forall|j: int| 0 <= j < i ==> !is_digit(clause@[j]),
        decreases n - i,
    {
        let ch = clause.get_char(i);
        if is_ascii_digit(ch) {
            assert(is_digit(clause@[i as int]));
            assert(exists|j: int| 0 <= j < clause@.len() && is_digit(clause@[j]));
            return true;
        }
        i = i + 1;
    }
    let lower_s = to_lowercase(clause);
    let lower = chars_of(lower_s.as_str());
    let markers = marker_list();
    let ghost ms = important_markers();
    let mut k: usize = 0;
    while k < markers.len()
        invariant
            k <= markers@.len(),
            markers@.map_values(|s: &str| s@) == ms,
            ms == important_markers(),
            lower@ == lowercase_of(clause@),
            forall|j: int| 0 <= j < clause@.len() ==> !is_digit(clause@[j]),
            forall|j: int| 0 <= j < k ==> !contains_seq(lowercase_of(clause@), ms[j]),
        decreases markers@.len() - k,
    {
        let m = chars_of(markers[k]);
        assert(ms[k as int] == markers@[k as int]@);
        if contains_chars(&lower, &m) {
            assert(0 <= k < ms.len() && contains_seq(lowercase_of(clause@), ms[k as int]));
            return true;
        }
        k = k + 1;
    }
    false
}

/// `out` after appending `clause` under a cap of `max` characters: nothing
/// when a separating space would reach the cap, else a space (after a
/// non-empty `out`) and as much of the clause as fits.
pub open spec fn append_capped(out: Seq<char>, clause: Seq<char>, max: nat) -> Seq<char> {
    if out.len() > 0 && out.len() + 1 >= max {
        out
    } else {
        let o = if out.len() > 0 { out.push(' ') } else { out };
        let remaining: nat = if max > o.len() { (max - o.len()) as nat } else { 0 };
        o + take_at_most(clause, remaining)
    }
}

/// Appends a clause, separated by a space, without passing `max_chars`.
pub fn append_clause_with_cap(out: &mut String, clause: &str, max_chars: usize)
    ensures
        final(out)@ == append_capped(old(out)@, clause@, max_chars as nat),
{
    let len = out.as_str().unicode_len();
    if len > 0 {
        if max_chars == 0 || len >= max_chars - 1 {
            return;
        }
        push_char(out, ' ');
    }
    let ghost o = out@;
    let cur = out.as_str().unicode_len();
    let remaining = if max_chars > cur { max_chars - cur } else { 0 };
    let n = clause.unicode_len();
    let take = if remaining < n { remaining } else { n };
    let mut i: usize = 0;
    while i < take
        invariant
            take <= n,
            n == clause@.len(),
            i <= take,
            out@ == o + clause@.subrange(0, i as int),
        decreases take - i,
    {
        push_char(out, clause.get_char(i));
        assert(clause@.subrange(0, i + 1) =~= clause@.subrange(0, i as int).push(clause@[i as int]));
        i = i + 1;
    }
    assert(clause@.subrange(0, take as int) =~= take_at_most(clause@, remaining as nat));
}

/// The important clauses of `cls` appended in order under the cap.
pub open spec fn select_clauses(cls: Seq<Seq<char>>, max: nat) -> Seq<char>
    decreases cls.len(),
{
    if cls.len() == 0 {
        Seq::empty()
    } else {
        let prev = select_clauses(cls.drop_last(), max);
        let c = trim_seq(cls.last());
        if c.len() == 0 || !is_important_clause(c) { prev } else { append_capped(prev, c, max) }
    }
}

/// The important clauses of a text, joined and capped at `max` characters.
pub open spec fn important_clauses(text: Seq<char>, max: nat) -> Seq<char> {
    trim_seq(select_clauses(clauses_of(text), max))
}

/// Once the selection reaches the cap, later clauses leave it unchanged.
proof fn lemma_select_stable(cls: Seq<Seq<char>>, i: int, max: nat)
    requires
        0 <= i <= cls.len(),
        select_clauses(cls.subrange(0, i), max).len() >= max,
    ensures
        select_clauses(cls, max) == select_clauses(cls.subrange(0, i), max),
    decreases cls.len(),
{
    if cls.len() == i {
        assert(cls.subrange(0, i) =~= cls);
    } else {
        let d = cls.drop_last();
        assert(d.subrange(0, i) =~= cls.subrange(0, i));
        lemma_select_stable(d, i, max);
        let prev = select_clauses(d, max);
        let c = trim_seq(cls.last());
        if c.len() > 0 && is_important_clause(c) && prev.len() == 0 {
            assert(prev + take_at_most(c, 0) =~= prev);
        }
    }
}

/// The important clauses of a text, joined with spaces and capped.
pub fn important_live_commerce_clauses(text: &str, max_chars: usize) -> (r: String)
    ensures
        r@ == important_clauses(text@, max_chars as nat),
{
    let clauses = split_live_commerce_clauses(text);
    let ghost cls = strs(clauses@);
    let mut selected = String::new();
    let mut k: usize = 0;
    let mut done = false;
    while k < clauses.len() && !done
        invariant
            k <= clauses@.len(),
            cls == strs(clauses@),
            selected@ == select_clauses(cls.subrange(0, k as int), max_chars as nat),
            done ==> selected@.len() >= max_chars,
        decreases clauses@.len() - k,
    {
        proof {
            assert(cls.subrange(0, k + 1).drop_last() =~= cls.subrange(0, k as int));
            assert(cls.subrange(0, k + 1).last() == clauses@[k as int]@);
        }
        let clause = trim_chars(&chars_of(clauses[k].as_str()));
        if clause.len() > 0 {
            let cs = string_of(&clause);
            if is_important_live_commerce_clause(cs.as_str()) {
                append_clause_with_cap(&mut selected, cs.as_str(), max_chars);
                if selected.as_str().unicode_len() >= max_chars {
                    done = true;
                }
            }
        }
        k = k + 1;
    }
    proof {
        if done {
            lemma_select_stable(cls, k as int, max_chars as nat);
        } else {
            assert(cls.subrange(0, k as int) =~= cls);
        }
    }
    string_of(&trim_chars(&chars_of(selected.as_str())))
}

/// How many leading characters of `s` the fallback cut keeps, reading from
/// position `k` with `ends` sentence enders seen: it stops at `max`
/// characters, at the end of the text, or just after the second sentence
/// ender.
pub open spec fn cut_len(s: Seq<char>, max: nat, k: nat, ends: nat) -> nat
    decreases s.len() - k,
{
    if k >= s.len() || k >= max {
        k
    } else if is_sentence_end(s[k as int]) && ends + 1 >= 2 {
        k + 1
    } else {
        cut_len(s, max, k + 1, if is_sentence_end(s[k as int]) { ends + 1 } else { ends })
    }
}

/// The separators a cut text must not end with.
pub open spec fn is_trailing_separator(c: char) -> bool {
    c == ',' || c == '\u{ff0c}' || c == ';' || c == '\u{ff1b}'
}

/// `s` without trailing separators.
pub open spec fn trim_end_separators(s: Seq<char>) -> Seq<char>
    decreases s.len(),
{
    if s.len() > 0 && is_trailing_separator(s.last()) {
        trim_end_separators(s.drop_last())
    } else {
        s
    }
}

/// The spoken text under a policy: the text with white space collapsed and
/// fillers removed; if that is longer than the policy's cap, its important
/// clauses; if it has none, its first (at most two) sentences within the
/// cap, without trailing separators and white space; if that leaves
/// nothing, the whole filtered text.
pub open spec fn text_for_policy(text: Seq<char>, lang: Lang, policy: TtsExpansionPolicy) -> Seq<char> {
    let collapsed = without_fillers(collapse_spaces(text), lang);
    let max = max_text_chars(lang, policy);
    if collapsed.len() <= max {
        collapsed
    } else {
        let important = important_clauses(collapsed, max);
        if important.len() > 0 {
            important
        } else {
            let head = collapsed.subrange(0, cut_len(collapsed, max, 0, 0) as int);
            let trimmed = trim_seq(trim_end_separators(head));
            if trimmed.len() == 0 { collapsed } else { trimmed }
        }
    }
}

proof fn lemma_cut_len_bounds(s: Seq<char>, max: nat, k: nat, ends: nat)
    requires
        k <= s.len(),
    ensures
        k <= cut_len(s, max, k, ends) <= s.len(),
    decreases s.len() - k,
{
    if k < s.len() && k < max && !(is_sentence_end(s[k as int]) && ends + 1 >= 2) {
        lemma_cut_len_bounds(s, max, k + 1, if is_sentence_end(s[k as int]) { ends + 1 } else { ends });
    }
}

fn sentence_cut(v: &Vec<char>, max_chars: usize) -> (k: usize)
    ensures
        k == cut_len(v@, max_chars as nat, 0, 0),
        k <= v@.len(),
{
    let n = v.len();
    let mut k: usize = 0;
    let mut ends: usize = 0;
    let mut stop = false;
    proof {
        lemma_cut_len_bounds(v@, max_chars as nat, 0, 0);
    }
    while k < n && k < max_chars && !stop
        invariant
            n == v@.len(),
            k <= n,
            ends <= 1,
            !stop ==> cut_len(v@, max_chars as nat, k as nat, ends as nat) == cut_len(v@, max_chars as nat, 0, 0),
            stop ==> k == cut_len(v@, max_chars as nat, 0, 0),
        decreases n - k,
    {
        if is_sentence_end_char(v[k]) {
            if ends + 1 >= 2 {
                stop = true;
            } else {
                ends = ends + 1;
            }
        }
        k = k + 1;
    }
    k
}

fn trim_end_separator_chars(v: &Vec<char>, len: usize) -> (r: Vec<char>)
    requires
        len <= v@.len(),
    ensures
        r@ == trim_end_separators(v@.subrange(0, len as int)),
{
    let mut end = len;
    while end > 0 && (v[end - 1] == ',' || v[end - 1] == '\u{ff0c}' || v[end - 1] == ';' || v[end - 1] == '\u{ff1b}')
        invariant
            end <= len <= v@.len(),
            trim_end_separators(v@.subrange(0, len as int)) == trim_end_separators(v@.subrange(0, end as int)),
        decreases end,
    {
        assert(v@.subrange(0, end as int).drop_last() =~= v@.subrange(0, end - 1));
        end = end - 1;
    }
    let mut r: Vec<char> = Vec::new();
    let mut i: usize = 0;
    while i < end
        invariant
            end <= v@.len(),
            i <= end,
            r@ == v@.subrange(0, i as int),
        decreases end - i,
    {
        r.push(v[i]);
        assert(v@.subrange(0, i + 1) =~= v@.subrange(0, i as int).push(v@[i as int]));
        i = i + 1;
    }
    r
}

/// The text to synthesize under a catch-up policy.
pub fn live_commerce_text_for_policy(text: &str, target_lang: &Lang, policy: TtsExpansionPolicy) -> (r: String)
    ensures
        r@ == text_for_policy(text@, *target_lang, policy),
{
    let spaced = collapse_whitespace(text);
    let collapsed = remove_live_commerce_filler(spaced.as_str(), target_lang);
    let max_chars = max_tts_text_chars(target_lang, policy);
    let v = chars_of(collapsed.as_str());
    if v.len() <= max_chars {
        return collapsed;
    }
    let important = important_live_commerce_clauses(collapsed.as_str(), max_chars);
    if important.as_str().unicode_len() > 0 {
        return important;
    }
    let cut = sentence_cut(&v, max_chars);
    let trimmed = trim_chars(&trim_end_separator_chars(&v, cut));
    if trimmed.len() == 0 {
        collapsed
    } else {
        string_of(&trimmed)
    }
}

/// The text to synthesize in concise mode.
pub fn concise_live_commerce_text(text: &str, target_lang: &Lang) -> (r: String)
    ensures
        r@ == text_for_policy(text@, *target_lang, TtsExpansionPolicy::Concise),
{
    live_commerce_text_for_policy(text, target_lang, TtsExpansionPolicy::Concise)
}

proof fn lemma_append_capped_within(out: Seq<char>, clause: Seq<char>, max: nat)
    requires
        out.len() <= max,
    ensures
        append_capped(out, clause, max).len() <= max,
{
}

proof fn lemma_select_within(cls: Seq<Seq<char>>, max: nat)
    ensures
        select_clauses(cls, max).len() <= max,
    decreases cls.len(),
{
    if cls.len() > 0 {
        lemma_select_within(cls.drop_last(), max);
        lemma_append_capped_within(select_clauses(cls.drop_last(), max), trim_seq(cls.last()), max);
    }
}

proof fn lemma_cut_within(s: Seq<char>, max: nat, k: nat, ends: nat)
    requires
        k <= max,
    ensures
        cut_len(s, max, k, ends) <= max,
    decreases s.len() - k,
{
    if k < s.len() && k < max && !(is_sentence_end(s[k as int]) && ends + 1 >= 2) {
        lemma_cut_within(s, max, k + 1, if is_sentence_end(s[k as int]) { ends + 1 } else { ends });
    }
}

proof fn lemma_trim_end_separators_shorter(s: Seq<char>)
    ensures
        trim_end_separators(s).len() <= s.len(),
    decreases s.len(),
{
    if s.len() > 0 && is_trailing_separator(s.last()) {
        lemma_trim_end_separators_shorter(s.drop_last());
    }
}

/// The text spoken under a policy fits the policy's cap, unless nothing in
/// the filtered text survives shortening, in which case the filtered text
/// is spoken whole.
pub proof fn lemma_policy_text_within_cap(text: Seq<char>, lang: Lang, policy: TtsExpansionPolicy)
    ensures
        text_for_policy(text, lang, policy).len() <= max_text_chars(lang, policy)
            || text_for_policy(text, lang, policy) == without_fillers(collapse_spaces(text), lang),
{
    let collapsed = without_fillers(collapse_spaces(text), lang);
    let max = max_text_chars(lang, policy);
    if collapsed.len() > max {
        lemma_select_within(clauses_of(collapsed), max);
        lemma_trim_shorter(select_clauses(clauses_of(collapsed), max));
        lemma_cut_len_bounds(collapsed, max, 0, 0);
        lemma_cut_within(collapsed, max, 0, 0);
        let head = collapsed.subrange(0, cut_len(collapsed, max, 0, 0) as int);
        lemma_trim_end_separators_shorter(head);
        lemma_trim_shorter(trim_end_separators(head));
    }
}

} // verus!
