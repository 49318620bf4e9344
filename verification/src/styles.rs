//! Style listing: the read-only catalogue of styles found on disk.
//!
//! The shell enumerates the directories under the styles root and hands the
//! names in; everything else — the human-readable display name, the sort
//! order, the synthetic default entry that always comes first — is computed
//! and verified here.

use vstd::prelude::*;
use vstd::multiset::Multiset;
use vstd::seq_lib::lemma_multiset_commutative;

use crate::command::views_of;
use crate::progress::is_space;
use crate::text::chars_of;
use crate::text::string_of;

verus! {

/// One style as listed to the UI.
#[derive(PartialEq, Eq, Debug)]
pub struct StyleInfo {
    /// The style's identifier: its directory name.
    pub name: String,
    /// Human-readable name derived from the identifier.
    pub display_name: String,
    /// Thumbnail reference; none is stored yet, so always empty.
    pub thumbnail: String,
    /// Creation date stamp, as `YYYY-MM-DD` text.
    pub created: String,
}

impl Clone for StyleInfo {
    fn clone(&self) -> (r: Self)
        ensures
            r == *self,
    {
        StyleInfo {
            name: self.name.clone(),
            display_name: self.display_name.clone(),
            thumbnail: self.thumbnail.clone(),
            created: self.created.clone(),
        }
    }
}

/// Detailed information about one style.
#[derive(PartialEq, Eq, Debug)]
pub struct StyleDetails {
    pub name: String,
    pub display_name: String,
    pub thumbnail: String,
    pub created: String,
    pub description: Option<String>,
}

/// A separator inside a style name: an underscore (which stands for a
/// space) or white space itself.
pub open spec fn is_name_sep(c: char) -> bool {
    c == '_' || is_space(c)
}

/// ASCII uppercase: the letters `a` to `z` mapped up, all else kept.
pub open spec fn ascii_upper(c: char) -> char {
    if 97 <= c as u32 <= 122 {
        (((c as u32) - 32) as u32) as char
    } else {
        c
    }
}

fn ascii_upper_exec(c: char) -> (r: char)
    ensures
        r == ascii_upper(c),
{
    match c {
        'a' => 'A',
        'b' => 'B',
        'c' => 'C',
        'd' => 'D',
        'e' => 'E',
        'f' => 'F',
        'g' => 'G',
        'h' => 'H',
        'i' => 'I',
        'j' => 'J',
        'k' => 'K',
        'l' => 'L',
        'm' => 'M',
        'n' => 'N',
        'o' => 'O',
        'p' => 'P',
        'q' => 'Q',
        'r' => 'R',
        's' => 'S',
        't' => 'T',
        'u' => 'U',
        'v' => 'V',
        'w' => 'W',
        'x' => 'X',
        'y' => 'Y',
        'z' => 'Z',
        _ => c,
    }
}

/// The rest of a display name: separators close the current word, the first
/// letter of each new word is uppercased, and words are joined by single
/// spaces.
pub open spec fn title_rest(s: Seq<char>, out: Seq<char>, in_word: bool) -> Seq<char>
    decreases s.len(),
{
    if s.len() == 0 {
        out
    } else {
        let c = s[0];
        let rest = s.subrange(1, s.len() as int);
        if is_name_sep(c) {
            title_rest(rest, out, false)
        } else if !in_word {
            let out2 = if out.len() > 0 {
                out.push(' ')
            } else {
                out
            };
            title_rest(rest, out2.push(ascii_upper(c)), true)
        } else {
            title_rest(rest, out.push(c), true)
        }
    }
}

/// The display name of a style: underscores become spaces, each word is
/// capitalized on its first letter, and words are joined by single spaces.
pub open spec fn display_name_of(s: Seq<char>) -> Seq<char> {
    title_rest(s, Seq::<char>::empty(), false)
}

/// Compute the display name of a style name.
#[verifier::loop_isolation(false)]
pub fn display_name(name: &str) -> (r: String)
    ensures
        r@ == display_name_of(name@),
{
    let chars = chars_of(name);
    let n = chars.len();
    let mut out: Vec<char> = Vec::new();
    let mut in_word = false;
    let mut i: usize = 0;
    proof {
        assert(name@.subrange(0, name@.len() as int) =~= name@);
    }
    while i < n
        invariant
            i <= n == name@.len(),
            chars@ == name@,
            display_name_of(name@) == title_rest(
                name@.subrange(i as int, name@.len() as int),
                out@,
                in_word,
            ),
        decreases n - i,
    {
        proof {
            let cur = name@.subrange(i as int, name@.len() as int);
            assert(cur[0] == name@[i as int]);
            assert(cur.subrange(1, cur.len() as int) =~= name@.subrange(
                i + 1,
                name@.len() as int,
            ));
        }
        let c = chars[i];
        let sep = c == '_' || crate::progress::is_space_exec(c);
        if sep {
            in_word = false;
        } else if !in_word {
            if out.len() > 0 {
                out.push(' ');
            }
            out.push(ascii_upper_exec(c));
            in_word = true;
        } else {
            out.push(c);
        }
        i = i + 1;
    }
    proof {
        assert(name@.subrange(name@.len() as int, name@.len() as int) =~= Seq::<char>::empty());
    }
    string_of(&out)
}

/// Lexicographic order on character sequences by scalar value — the order
/// `str` comparison uses, since UTF-8 byte order agrees with scalar order.
pub open spec fn lex_le(a: Seq<char>, b: Seq<char>) -> bool
    decreases a.len(),
{
    if a.len() == 0 {
        true
    } else if b.len() == 0 {
        false
    } else if (a[0] as u32) < (b[0] as u32) {
        true
    } else if (a[0] as u32) > (b[0] as u32) {
        false
    } else {
        lex_le(a.subrange(1, a.len() as int), b.subrange(1, b.len() as int))
    }
}

/// `lex_le` is total: one of the two directions always holds.
pub proof fn lemma_lex_total(a: Seq<char>, b: Seq<char>)
    ensures
        lex_le(a, b) || lex_le(b, a),
    decreases a.len(),
{
    if a.len() > 0 && b.len() > 0 && a[0] as u32 == b[0] as u32 {
        lemma_lex_total(a.subrange(1, a.len() as int), b.subrange(1, b.len() as int));
    }
}

/// `lex_le` is transitive.
pub proof fn lemma_lex_trans(a: Seq<char>, b: Seq<char>, c: Seq<char>)
    requires
        lex_le(a, b),
        lex_le(b, c),
    ensures
        lex_le(a, c),
    decreases a.len(),
{
    if a.len() > 0 && b.len() > 0 && c.len() > 0 {
        if a[0] as u32 == b[0] as u32 && b[0] as u32 == c[0] as u32 {
            lemma_lex_trans(
                a.subrange(1, a.len() as int),
                b.subrange(1, b.len() as int),
                c.subrange(1, c.len() as int),
            );
        }
    }
}

/// Compare two strings in lexicographic order by character.
#[verifier::loop_isolation(false)]
pub fn str_lex_le(a: &str, b: &str) -> (r: bool)
    ensures
        r == lex_le(a@, b@),
{
    let ac = chars_of(a);
    let bc = chars_of(b);
    let an = ac.len();
    let bn = bc.len();
    let mut i: usize = 0;
    proof {
        assert(a@.subrange(0, an as int) =~= a@);
        assert(b@.subrange(0, bn as int) =~= b@);
    }
    while i < an && i < bn && (ac[i] as u32) == (bc[i] as u32)
        invariant
            i <= an == a@.len(),
            i <= bn == b@.len(),
            ac@ == a@,
            bc@ == b@,
            lex_le(a@, b@) == lex_le(
                a@.subrange(i as int, an as int),
                b@.subrange(i as int, bn as int),
            ),
        decreases an - i,
    {
        proof {
            let ar = a@.subrange(i as int, an as int);
            let br = b@.subrange(i as int, bn as int);
            assert(ar[0] == a@[i as int]);
            assert(br[0] == b@[i as int]);
            assert(ar.subrange(1, ar.len() as int) =~= a@.subrange(i + 1, an as int));
            assert(br.subrange(1, br.len() as int) =~= b@.subrange(i + 1, bn as int));
        }
        i = i + 1;
    }
    proof {
        let ar = a@.subrange(i as int, an as int);
        let br = b@.subrange(i as int, bn as int);
        if i < an && i < bn {
            assert(ar[0] == a@[i as int]);
            assert(br[0] == b@[i as int]);
        }
    }
    if i == an {
        true
    } else if i == bn {
        false
    } else {
        (ac[i] as u32) < (bc[i] as u32)
    }
}

/// Sorted by name, ascending.
pub open spec fn sorted_by_name(s: Seq<StyleInfo>) -> bool {
    forall|i: int, j: int| 0 <= i < j < s.len() ==> lex_le(s[i].name@, s[j].name@)
}

/// The names of the listed styles, in order.
pub open spec fn entry_names(s: Seq<StyleInfo>) -> Seq<Seq<char>> {
    s.map_values(|st: StyleInfo| st.name@)
}

/// Insert a style into a name-sorted vector, keeping it sorted; the styles
/// and their names gain exactly the inserted entry.
#[verifier::loop_isolation(false)]
fn insert_sorted(sorted: &mut Vec<StyleInfo>, x: StyleInfo)
    requires
        sorted_by_name(old(sorted)@),
    ensures
        sorted_by_name(final(sorted)@),
        final(sorted)@.len() == old(sorted)@.len() + 1,
        final(sorted)@.to_multiset() == old(sorted)@.to_multiset().insert(x),
        entry_names(final(sorted)@).to_multiset() == entry_names(old(sorted)@).to_multiset().insert(
            x.name@,
        ),
{
    let mut i: usize = 0;
    while i < sorted.len() && str_lex_le(sorted[i].name.as_str(), x.name.as_str())
        invariant
            i <= sorted@.len(),
            sorted@ == old(sorted)@,
            forall|j: int| 0 <= j < i ==> lex_le(sorted@[j].name@, x.name@),
        decreases sorted@.len() - i,
    {
        i = i + 1;
    }
    proof {
        if i < sorted@.len() {
            lemma_lex_total(sorted@[i as int].name@, x.name@);
        }
    }
    let ghost prior = sorted@;
    sorted.insert(i, x.clone());
    proof {
        let after = sorted@;
        // Sortedness: entries before the insertion point are at most `x`,
        // entries after are at least `x` by totality and transitivity.
        assert forall|p: int, q: int| 0 <= p < q < after.len() implies lex_le(
            after[p].name@,
            after[q].name@,
        ) by {
            if p < i && q == i {
            } else if p == i && q > i {
                if q == i + 1 {
                } else {
                    lemma_lex_trans(x.name@, prior[i as int].name@, prior[q - 1].name@);
                }
            } else if p < i && q > i {
                assert(lex_le(prior[p].name@, prior[q - 1].name@));
            } else if p > i && q > i {
                assert(lex_le(prior[p - 1].name@, prior[q - 1].name@));
            }
        }
        // Multisets: the inserted vector is the concatenation of the prefix,
        // the new entry, and the suffix.
        let pre = prior.take(i as int);
        let post = prior.skip(i as int);
        assert(after =~= pre + (seq![x] + post));
        lemma_multiset_commutative(pre, seq![x] + post);
        lemma_multiset_commutative(seq![x], post);
        lemma_multiset_commutative(pre, post);
        assert(pre + post =~= prior);
        assert(seq![x].to_multiset() =~= Multiset::<StyleInfo>::empty().insert(x)) by {
            seq![x].to_multiset_ensures();
            assert(seq![x].drop_last() =~= Seq::<StyleInfo>::empty());
            assert(seq![x] =~= Seq::<StyleInfo>::empty().push(x));
            Seq::<StyleInfo>::empty().to_multiset_ensures();
        }
        assert(after.to_multiset() =~= prior.to_multiset().insert(x));

        let names_after = entry_names(after);
        let names_pre = entry_names(pre);
        let names_post = entry_names(post);
        assert(names_after =~= names_pre + (seq![x.name@] + names_post));
        lemma_multiset_commutative(names_pre, seq![x.name@] + names_post);
        lemma_multiset_commutative(seq![x.name@], names_post);
        lemma_multiset_commutative(names_pre, names_post);
        assert(names_pre + names_post =~= entry_names(prior));
        assert(seq![x.name@].to_multiset() =~= Multiset::<Seq<char>>::empty().insert(x.name@)) by {
            seq![x.name@].to_multiset_ensures();
            assert(seq![x.name@] =~= Seq::<Seq<char>>::empty().push(x.name@));
            Seq::<Seq<char>>::empty().to_multiset_ensures();
        }
        assert(names_after.to_multiset() =~= entry_names(prior).to_multiset().insert(x.name@));
    }
}

/// Sort styles by name. The styles and their names are kept exactly, as
/// multisets.
#[verifier::loop_isolation(false)]
pub fn sort_styles(styles: Vec<StyleInfo>) -> (r: Vec<StyleInfo>)
    ensures
        sorted_by_name(r@),
        r@.to_multiset() == styles@.to_multiset(),
        entry_names(r@).to_multiset() == entry_names(styles@).to_multiset(),
        r@.len() == styles@.len(),
{
    broadcast use vstd::seq_lib::group_to_multiset_ensures;

    let mut out: Vec<StyleInfo> = Vec::new();
    let mut i: usize = 0;
    while i < styles.len()
        invariant
            i <= styles@.len(),
            sorted_by_name(out@),
            out@.to_multiset() == styles@.take(i as int).to_multiset(),
            entry_names(out@).to_multiset() == entry_names(styles@.take(i as int)).to_multiset(),
            out@.len() == i,
        decreases styles@.len() - i,
    {
        proof {
            assert(styles@.take(i + 1) =~= styles@.take(i as int).push(styles@[i as int]));
            assert(entry_names(styles@.take(i + 1)) =~= entry_names(styles@.take(i as int)).push(
                styles@[i as int].name@,
            ));
            assert(styles@.take(i as int).push(styles@[i as int]).to_multiset() == styles@.take(
                i as int,
            ).to_multiset().insert(styles@[i as int]));
            assert(entry_names(styles@.take(i as int)).push(styles@[i as int].name@).to_multiset()
                == entry_names(styles@.take(i as int)).to_multiset().insert(
                styles@[i as int].name@,
            ));
        }
        insert_sorted(&mut out, styles[i].clone());
        i = i + 1;
    }
    proof {
        assert(styles@.take(styles@.len() as int) =~= styles@);
    }
    out
}

/// One well-formed listed entry: display name computed from the name, no
/// thumbnail stored, stamped with the given date.
pub open spec fn entry_wf(st: StyleInfo, today: Seq<char>) -> bool {
    st.display_name@ == display_name_of(st.name@) && st.thumbnail@.len() == 0 && st.created@
        == today
}

/// The synthetic entry that always heads the style list.
pub open spec fn is_default_entry(st: StyleInfo, today: Seq<char>) -> bool {
    st.name@ == "default"@ && st.display_name@ == "Default"@ && st.thumbnail@.len() == 0
        && st.created@ == today
}

fn make_style(name: &String, today: &String) -> (st: StyleInfo)
    ensures
        st.name@ == name@,
        entry_wf(st, today@),
{
    StyleInfo {
        name: name.clone(),
        display_name: display_name(name.as_str()),
        thumbnail: String::new(),
        created: today.clone(),
    }
}

#[verifier::loop_isolation(false)]
fn make_styles(dir_names: &Vec<String>, today: &String) -> (r: Vec<StyleInfo>)
    ensures
        r@.len() == dir_names@.len(),
        forall|i: int|
            0 <= i < r@.len() ==> (r@[i].name@ == dir_names@[i]@ && entry_wf(r@[i], today@)),
{
    let mut r: Vec<StyleInfo> = Vec::new();
    let mut i: usize = 0;
    while i < dir_names.len()
        invariant
            i <= dir_names@.len(),
            r@.len() == i,
            forall|j: int|
                0 <= j < i ==> (r@[j].name@ == dir_names@[j]@ && entry_wf(r@[j], today@)),
        decreases dir_names@.len() - i,
    {
        r.push(make_style(&dir_names[i], today));
        i = i + 1;
    }
    r
}

fn default_style(today: &String) -> (st: StyleInfo)
    ensures
        is_default_entry(st, today@),
{
    StyleInfo {
        name: String::from_str("default"),
        display_name: String::from_str("Default"),
        thumbnail: String::new(),
        created: today.clone(),
    }
}

/// Assemble the style listing for the directory names the shell found under
/// the styles root: the synthetic default entry first, then one entry per
/// name, sorted by name, all stamped with the given date.
pub fn assemble_styles(dir_names: &Vec<String>, today: &String) -> (r: Vec<StyleInfo>)
    ensures
        r@.len() == dir_names@.len() + 1,
        is_default_entry(r@[0], today@),
        sorted_by_name(r@.skip(1)),
        forall|k: int| 1 <= k < r@.len() ==> entry_wf(#[trigger] r@[k], today@),
        entry_names(r@.skip(1)).to_multiset() == views_of(dir_names@).to_multiset(),
{
    broadcast use vstd::seq_lib::group_to_multiset_ensures;

    let made = make_styles(dir_names, today);
    let ghost made_seq = made@;
    let mut r = sort_styles(made);
    let ghost sorted_seq = r@;
    r.insert(0, default_style(today));
    proof {
        assert(r@.skip(1) =~= sorted_seq);
        assert(entry_names(made_seq) =~= views_of(dir_names@));
        assert forall|k: int| 1 <= k < r@.len() implies entry_wf(#[trigger] r@[k], today@) by {
            let st = r@[k];
            assert(sorted_seq[k - 1] == st);
            assert(sorted_seq.contains(st));
            assert(made_seq.to_multiset().count(st) > 0);
            assert(made_seq.contains(st));
            let i = choose|i: int| 0 <= i < made_seq.len() && made_seq[i] == st;
            assert(entry_wf(made_seq[i], today@));
        }
    }
    r
}

/// Relies on `chrono::Local::now` and `chrono::DateTime::format` with the
/// pattern `%Y-%m-%d`: the local date as text. The result depends on the
/// clock and the time zone, so nothing is promised of it.
#[verifier::external_body]
fn today_string() -> String {
    chrono::Local::now().format("%Y-%m-%d").to_string()
}

/// List the styles found under the styles root, from the directory names
/// the shell enumerated (in whatever order the directory walk gave them):
/// the synthetic default entry always first, the rest sorted by name, and
/// every entry stamped with one date, the day of the call.
pub fn list_styles(dir_names: &Vec<String>) -> (r: Vec<StyleInfo>)
    ensures
        r@.len() == dir_names@.len() + 1,
        is_default_entry(r@[0], r@[0].created@),
        sorted_by_name(r@.skip(1)),
        forall|k: int| 1 <= k < r@.len() ==> entry_wf(#[trigger] r@[k], r@[0].created@),
        entry_names(r@.skip(1)).to_multiset() == views_of(dir_names@).to_multiset(),
{
    let today = today_string();
    assemble_styles(dir_names, &today)
}

/// Details for one style: the built-in default has fixed details and a
/// fixed description; any other name must exist under the styles root
/// (`exists` is the shell's probe of `styles/<name>`); an unknown style is
/// an error, exactly with the not-found text.
pub fn get_style_details(name: &String, exists: bool, today: &String) -> (r: Result<
    StyleDetails,
    String,
>)
    ensures
        r is Ok <==> (name@ == "default"@ || exists),
        r is Ok ==> ({
            let d = r->Ok_0;
            &&& d.name@ == name@
            &&& d.thumbnail@.len() == 0
            &&& d.created@ == today@
            &&& (name@ == "default"@ ==> d.display_name@ == "Default"@ && d.description is Some
                && d.description->Some_0@ == "Default CPPN configuration"@)
            &&& (name@ != "default"@ ==> d.display_name@ == display_name_of(name@)
                && d.description is None)
        }),
        r is Err ==> r->Err_0@ == "Style not found: "@ + name@,
{
    if *name == String::from_str("default") {
        Ok(
            StyleDetails {
                name: name.clone(),
                display_name: String::from_str("Default"),
                thumbnail: String::new(),
                created: today.clone(),
                description: Some(String::from_str("Default CPPN configuration")),
            },
        )
    } else if exists {
        Ok(
            StyleDetails {
                name: name.clone(),
                display_name: display_name(name.as_str()),
                thumbnail: String::new(),
                created: today.clone(),
                description: None,
            },
        )
    } else {
        Err(String::from_str("Style not found: ").concat(name.as_str()))
    }
}

/// Thumbnail for a style: none is stored anywhere yet, so always the empty
/// string, never an error.
pub fn get_style_thumbnail(_name: &String) -> (r: Result<String, String>)
    ensures
        r is Ok,
        r->Ok_0@.len() == 0,
{
    Ok(String::new())
}

} // verus!
