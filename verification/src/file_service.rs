//! Impulse-response profile names: validating user-supplied file names,
//! deriving display labels, and assembling the profile inventory shown to the
//! user.
use vstd::prelude::*;
use crate::sorting::{
    TextKeyed, is_stable_sort_by, key_of, lemma_stable_sort_map_values, stable_sort_by_key,
};
use crate::text::{
    ascii_lower, ascii_lower_char, chars_of, contains_seq, ends_with, occurs_at, push_char, range_contains_char,
    range_contains_pair, range_ends_with_ignore_ascii_case, strip_suffix_all,
    strip_suffix_all_end, trim, trim_bounds, lemma_trim_idempotent, wav_suffix, string_from_chars,
};

verus! {

/// One selectable impulse-response profile.
pub struct IrProfileDto {
    pub file_name: String,
    pub label: String,
    pub is_custom: bool,
    pub is_in_use: bool,
}

impl View for IrProfileDto {
    /// `(file_name, label, is_custom, is_in_use)`.
    type V = (Seq<char>, Seq<char>, bool, bool);

    open spec fn view(&self) -> (Seq<char>, Seq<char>, bool, bool) {
        (self.file_name@, self.label@, self.is_custom, self.is_in_use)
    }
}

impl TextKeyed for IrProfileDto {
    open spec fn sort_key(&self) -> Seq<char> {
        self.label@
    }

    fn key_chars(&self) -> (k: Vec<char>) {
        chars_of(self.label.as_str())
    }
}

/// The uppercase `.WAV` suffix.
pub open spec fn upper_wav_suffix() -> Seq<char> {
    seq!['.', 'W', 'A', 'V']
}

/// Separator characters shown as spaces in labels.
pub open spec fn label_char(c: char) -> char {
    if c == '-' || c == '_' {
        ' '
    } else {
        c
    }
}

/// The display label of an IR file: the name without trailing `.wav`, then
/// without trailing `.WAV`, with `-` and `_` shown as spaces.
pub open spec fn readable_label(file_name: Seq<char>) -> Seq<char> {
    strip_suffix_all(strip_suffix_all(file_name, wav_suffix()), upper_wav_suffix()).map_values(
        |c: char| label_char(c),
    )
}

/// The checks on a user-supplied IR file name, with their error messages.
pub open spec fn sanitized_wav_file_name(file_name: Seq<char>) -> Result<Seq<char>, Seq<char>> {
    let t = trim(file_name);
    if t.len() == 0 {
        Err("IR file name cannot be empty"@)
    } else if t.contains('\\') || t.contains('/') || contains_seq(t, seq!['.', '.']) {
        Err("Invalid IR file name"@)
    } else if !ends_with(ascii_lower(t), wav_suffix()) {
        Err("Only .wav IR files are supported"@)
    } else {
        Ok(t)
    }
}

/// A `Result` of strings, seen through the strings' characters.
pub open spec fn string_result(r: Result<String, String>) -> Result<Seq<char>, Seq<char>> {
    match r {
        Ok(s) => Ok(s@),
        Err(e) => Err(e@),
    }
}

/// A `Result` with no value, seen through the error's characters.
pub open spec fn unit_result(r: Result<(), String>) -> Result<(), Seq<char>> {
    match r {
        Ok(()) => Ok(()),
        Err(e) => Err(e@),
    }
}

/// Sanitizing is idempotent: a name that passes the checks passes them again
/// unchanged.
pub proof fn lemma_sanitize_idempotent(file_name: Seq<char>)
    requires
        sanitized_wav_file_name(file_name) is Ok,
    ensures
        sanitized_wav_file_name(sanitized_wav_file_name(file_name)->Ok_0) == sanitized_wav_file_name(
            file_name,
        ),
{
    lemma_trim_idempotent(file_name);
}

/// Whether `t` ends with `.wav` in any ASCII case.
pub open spec fn ends_with_dot_wav_any_case(t: Seq<char>) -> bool {
    let n = t.len();
    &&& n >= 4
    &&& t[n - 4] == '.'
    &&& (t[n - 3] == 'w' || t[n - 3] == 'W')
    &&& (t[n - 2] == 'a' || t[n - 2] == 'A')
    &&& (t[n - 1] == 'v' || t[n - 1] == 'V')
}

/// Whether `t` holds two dots in a row.
pub open spec fn has_double_dot(t: Seq<char>) -> bool {
    exists|i: int| 0 <= i && i + 1 < t.len() && #[trigger] t[i] == '.' && t[i + 1] == '.'
}

/// A name is accepted, as exactly its trimmed form, when that trimmed form is
/// non-empty, holds no `/`, no `\\` and no `..`, and ends with `.wav` in any
/// ASCII case; a non-empty trimmed name holding `/`, `\\` or `..` is refused
/// as invalid. No other character makes a name invalid.
pub proof fn lemma_sanitize_accepts_plain_wav_names(file_name: Seq<char>)
    ensures
        ({
            let t = trim(file_name);
            &&& (t.len() > 0 && !t.contains('/') && !t.contains('\\') && !has_double_dot(t)
                && ends_with_dot_wav_any_case(t)) ==> sanitized_wav_file_name(file_name) == Ok::<
                Seq<char>,
                Seq<char>,
            >(t)
            &&& (t.len() > 0 && (t.contains('/') || t.contains('\\') || has_double_dot(t)))
                ==> sanitized_wav_file_name(file_name) == Err::<Seq<char>, Seq<char>>(
                "Invalid IR file name"@,
            )
        }),
{
    let t = trim(file_name);
    let pair = seq!['.', '.'];
    if has_double_dot(t) {
        let i = choose|i: int| 0 <= i && i + 1 < t.len() && #[trigger] t[i] == '.' && t[i + 1] == '.';
        assert(t.subrange(i, i + 2) =~= pair);
        assert(occurs_at(t, pair, i));
    } else {
        assert forall|i: int| !occurs_at(t, pair, i) by {
            if occurs_at(t, pair, i) {
                assert(t.subrange(i, i + 2)[0] == t[i]);
                assert(t.subrange(i, i + 2)[1] == t[i + 1]);
                assert(t[i] == '.');
            }
        }
    }
    if ends_with_dot_wav_any_case(t) {
        let n = t.len() as int;
        let l = ascii_lower(t);
        assert(ascii_lower_char('W') == 'w');
        assert(ascii_lower_char('A') == 'a');
        assert(ascii_lower_char('V') == 'v');
        assert(ascii_lower_char('w') == 'w');
        assert(ascii_lower_char('a') == 'a');
        assert(ascii_lower_char('v') == 'v');
        assert(ascii_lower_char('.') == '.');
        assert(l.subrange(n - 4, n) =~= wav_suffix());
    }
}

/// Trims `file_name` and checks that it is a plain `.wav` file name without
/// path separators or `..`.
pub fn sanitize_wav_file_name(file_name: &str) -> (r: Result<String, String>)
    ensures
        string_result(r) == sanitized_wav_file_name(file_name@),
        ({
            let t = trim(file_name@);
            (t.len() > 0 && !t.contains('/') && !t.contains('\\') && !has_double_dot(t)
                && ends_with_dot_wav_any_case(t)) ==> (r matches Ok(s) && s@ == t)
        }),
{
    proof {
        lemma_sanitize_accepts_plain_wav_names(file_name@);
    }
    let v = chars_of(file_name);
    let (start, end) = trim_bounds(&v);
    let ghost t = v@.subrange(start as int, end as int);
    if start == end {
        return Err(String::from_str("IR file name cannot be empty"));
    }
    if range_contains_char(&v, start, end, '\\') || range_contains_char(&v, start, end, '/')
        || range_contains_pair(&v, start, end, '.', '.') {
        return Err(String::from_str("Invalid IR file name"));
    }
    let wav = vec!['.', 'w', 'a', 'v'];
    proof {
        assert(wav@ =~= wav_suffix());
        assert(ascii_lower(wav@) =~= wav@);
    }
    if !range_ends_with_ignore_ascii_case(&v, start, end, &wav) {
        return Err(String::from_str("Only .wav IR files are supported"));
    }
    Ok(string_from_chars(&v, start, end))
}

/// The display label of an IR file name.
pub fn to_readable_label(file_name: &str) -> (label: String)
    ensures
        label@ == readable_label(file_name@),
{
    let v = chars_of(file_name);
    let lower = vec!['.', 'w', 'a', 'v'];
    let upper = vec!['.', 'W', 'A', 'V'];
    assert(lower@ =~= wav_suffix());
    assert(upper@ =~= upper_wav_suffix());
    let e1 = strip_suffix_all_end(&v, v.len(), &lower);
    assert(v@.subrange(0, v@.len() as int) =~= v@);
    let e2 = strip_suffix_all_end(&v, e1, &upper);
    let ghost stripped = v@.subrange(0, e2 as int);
    let mut label = String::new();
    let mut i: usize = 0;
    while i < e2
        invariant
            e2 <= v@.len(),
            i <= e2,
            stripped == v@.subrange(0, e2 as int),
            label@ == stripped.subrange(0, i as int).map_values(|c: char| label_char(c)),
        decreases e2 - i,
    {
        let c = v[i];
        let shown = if c == '-' || c == '_' {
            ' '
        } else {
            c
        };
        push_char(&mut label, shown);
        i = i + 1;
        assert(label@ =~= stripped.subrange(0, i as int).map_values(|c: char| label_char(c)));
    }
    assert(stripped.subrange(0, e2 as int) =~= stripped);
    label
}

/// The view of a profile built from a file name.
pub open spec fn profile_entry(file_name: Seq<char>, is_custom: bool) -> (
    Seq<char>,
    Seq<char>,
    bool,
    bool,
) {
    (file_name, readable_label(file_name), is_custom, false)
}

/// The profiles in listing order: the default directory's files, then the
/// custom directory's files.
pub open spec fn ir_profile_entries(defaults: Seq<Seq<char>>, customs: Seq<Seq<char>>) -> Seq<
    (Seq<char>, Seq<char>, bool, bool),
> {
    defaults.map_values(|n: Seq<char>| profile_entry(n, false)) + customs.map_values(
        |n: Seq<char>| profile_entry(n, true),
    )
}

/// The characters of each string.
pub open spec fn string_views(v: Seq<String>) -> Seq<Seq<char>> {
    v.map_values(|s: String| s@)
}

/// The label of a profile view.
pub open spec fn profile_label() -> spec_fn((Seq<char>, Seq<char>, bool, bool)) -> Seq<char> {
    |p: (Seq<char>, Seq<char>, bool, bool)| p.1
}

/// The view of each profile.
pub open spec fn profile_views(v: Seq<IrProfileDto>) -> Seq<(Seq<char>, Seq<char>, bool, bool)> {
    v.map_values(|p: IrProfileDto| p@)
}

fn push_profiles(out: &mut Vec<IrProfileDto>, names: &Vec<String>, is_custom: bool)
    ensures
        profile_views(final(out)@) == profile_views(old(out)@) + string_views(names@).map_values(
            |n: Seq<char>| profile_entry(n, is_custom),
        ),
{
    let ghost start = profile_views(out@);
    let mut i: usize = 0;
    while i < names.len()
        invariant
            i <= names@.len(),
            profile_views(out@) == start + string_views(names@).subrange(0, i as int).map_values(
                |n: Seq<char>| profile_entry(n, is_custom),
            ),
        decreases names@.len() - i,
    {
        let name = names[i].clone();
        let label = to_readable_label(name.as_str());
        let ghost before = out@;
        out.push(IrProfileDto { file_name: name, label, is_custom, is_in_use: false });
        i = i + 1;
        assert(profile_views(out@) =~= profile_views(before).push(
            profile_entry(names@[i - 1]@, is_custom),
        ));
        assert(string_views(names@).subrange(0, i as int) =~= string_views(names@).subrange(
            0,
            i - 1,
        ).push(names@[i - 1]@));
        assert(profile_views(out@) =~= start + string_views(names@).subrange(
            0,
            i as int,
        ).map_values(|n: Seq<char>| profile_entry(n, is_custom)));
    }
    assert(string_views(names@).subrange(0, names@.len() as int) =~= string_views(names@));
}

/// The profile inventory: one profile per default file name (not custom) and
/// per custom file name (custom), none in use, stably ordered by label.
pub fn collect_ir_profiles(default_names: &Vec<String>, custom_names: &Vec<String>) -> (out: Vec<
    IrProfileDto,
>)
    ensures
        is_stable_sort_by(
            ir_profile_entries(string_views(default_names@), string_views(custom_names@)),
            profile_views(out@),
            profile_label(),
        ),
        out@.len() == default_names@.len() + custom_names@.len(),
{
    let mut entries: Vec<IrProfileDto> = Vec::new();
    assert(profile_views(entries@) =~= Seq::empty());
    assert(profile_views(entries@).len() == entries@.len());
    push_profiles(&mut entries, default_names, false);
    push_profiles(&mut entries, custom_names, true);
    assert(profile_views(entries@) =~= ir_profile_entries(
        string_views(default_names@),
        string_views(custom_names@),
    ));
    let ghost input = entries@;
    let out = stable_sort_by_key(entries);
    proof {
        lemma_stable_sort_map_values(
            input,
            out@,
            key_of::<IrProfileDto>(),
            |p: IrProfileDto| p@,
            profile_label(),
        );
    }
    out
}

/// Whether `used` names the file `file_name`.
pub open spec fn names_contain(used: Seq<String>, file_name: Seq<char>) -> bool {
    string_views(used).contains(file_name)
}

/// Whether `names` holds a string equal to `name`.
pub fn contains_name(names: &Vec<String>, name: &String) -> (r: bool)
    ensures
        r == names_contain(names@, name@),
{
    let mut i: usize = 0;
    while i < names.len()
        invariant
            i <= names@.len(),
            forall|j: int| 0 <= j < i ==> names@[j]@ != name@,
        decreases names@.len() - i,
    {
        if names[i] == *name {
            assert(string_views(names@)[i as int] == name@);
            return true;
        }
        i = i + 1;
    }
    assert forall|j: int| 0 <= j < string_views(names@).len() implies string_views(names@)[j]
        != name@ by {
        assert(string_views(names@)[j] == names@[j]@);
    }
    false
}

/// Marks each profile as in use exactly when its file name is in `used`.
pub fn mark_profiles_in_use(profiles: Vec<IrProfileDto>, used: &Vec<String>) -> (out: Vec<
    IrProfileDto,
>)
    ensures
        out@.len() == profiles@.len(),
        forall|i: int|
            0 <= i < out@.len() ==> #[trigger] out@[i]@ == (
                profiles@[i]@.0,
                profiles@[i]@.1,
                profiles@[i]@.2,
                names_contain(used@, profiles@[i]@.0),
            ),
{
    let ghost input = profiles@;
    let mut rest = profiles;
    let mut out: Vec<IrProfileDto> = Vec::new();
    while rest.len() > 0
        invariant
            out@.len() + rest@.len() == input.len(),
            rest@ == input.skip(out@.len() as int),
            forall|i: int|
                0 <= i < out@.len() ==> #[trigger] out@[i]@ == (
                    input[i]@.0,
                    input[i]@.1,
                    input[i]@.2,
                    names_contain(used@, input[i]@.0),
                ),
        decreases rest@.len(),
    {
        let ghost k = out@.len() as int;
        let p = rest.remove(0);
        assert(input.skip(k)[0] == p);
        assert(input.skip(k + 1) =~= input.skip(k).drop_first());
        let in_use = contains_name(used, &p.file_name);
        out.push(IrProfileDto { is_in_use: in_use, ..p });
    }
    out
}

/// The index of the first profile named `file_name`, if any.
pub open spec fn first_profile_named(
    profiles: Seq<(Seq<char>, Seq<char>, bool, bool)>,
    file_name: Seq<char>,
) -> Option<int> {
    if exists|i: int| 0 <= i < profiles.len() && (#[trigger] profiles[i]).0 == file_name {
        Some(
            choose|i: int|
                0 <= i < profiles.len() && (#[trigger] profiles[i]).0 == file_name && forall|j: int|
                    0 <= j < i ==> (#[trigger] profiles[j]).0 != file_name,
        )
    } else {
        None
    }
}

/// The checks before removing a profile: it must be listed, and it must be a
/// custom profile.
pub open spec fn removable_profile_check(
    profiles: Seq<(Seq<char>, Seq<char>, bool, bool)>,
    file_name: Seq<char>,
) -> Result<(), Seq<char>> {
    match first_profile_named(profiles, file_name) {
        None => Err("IR profile '"@ + file_name + "' not found"@),
        Some(i) => if profiles[i].2 {
            Ok(())
        } else {
            Err("Default IR profiles cannot be removed"@)
        },
    }
}

/// Checks that `file_name` names a listed custom profile.
pub fn check_profile_removable(profiles: &Vec<IrProfileDto>, file_name: &str) -> (r: Result<
    (),
    String,
>)
    ensures
        unit_result(r) == removable_profile_check(profile_views(profiles@), file_name@),
{
    let ghost pv = profile_views(profiles@);
    let name = String::from_str(file_name);
    let mut i: usize = 0;
    while i < profiles.len()
        invariant
            i <= profiles@.len(),
            pv == profile_views(profiles@),
            name@ == file_name@,
            forall|j: int| 0 <= j < i ==> (#[trigger] pv[j]).0 != file_name@,
        decreases profiles@.len() - i,
    {
        if profiles[i].file_name == name {
            proof {
                let w = choose|w: int|
                    0 <= w < pv.len() && (#[trigger] pv[w]).0 == file_name@ && forall|j: int|
                        0 <= j < w ==> (#[trigger] pv[j]).0 != file_name@;
                assert(pv[i as int].0 == file_name@);
                if w < i {
                } else if w > i {
                    assert(pv[i as int].0 != file_name@);
                }
                assert(w == i);
            }
            if profiles[i].is_custom {
                return Ok(());
            } else {
                return Err(String::from_str("Default IR profiles cannot be removed"));
            }
        }
        i = i + 1;
    }
    let mut msg = String::from_str("IR profile '");
    msg.append(file_name);
    msg.append("' not found");
    Err(msg)
}

/// The check that a profile is not used by any effect chain.
pub open spec fn unused_profile_check(used: Seq<String>, file_name: Seq<char>) -> Result<
    (),
    Seq<char>,
> {
    if names_contain(used, file_name) {
        Err("IR profile '"@ + file_name + "' is currently used by an effect chain"@)
    } else {
        Ok(())
    }
}

/// Checks that no effect chain uses the profile `file_name`.
pub fn check_profile_not_in_use(used: &Vec<String>, file_name: &str) -> (r: Result<(), String>)
    ensures
        unit_result(r) == unused_profile_check(used@, file_name@),
{
    let name = String::from_str(file_name);
    if contains_name(used, &name) {
        let mut msg = String::from_str("IR profile '");
        msg.append(file_name);
        msg.append("' is currently used by an effect chain");
        Err(msg)
    } else {
        Ok(())
    }
}

/// The check before saving a custom IR: no default IR has its name.
pub open spec fn default_name_free_check(file_name: Seq<char>, exists_in_defaults: bool) -> Result<
    (),
    Seq<char>,
> {
    if exists_in_defaults {
        Err("An IR named '"@ + file_name + "' already exists in defaults"@)
    } else {
        Ok(())
    }
}

/// Refuses to save a custom IR named `file_name` when the default directory
/// already holds a file of that name (`exists_in_defaults`).
pub fn check_default_name_free(file_name: &str, exists_in_defaults: bool) -> (r: Result<(), String>)
    ensures
        unit_result(r) == default_name_free_check(file_name@, exists_in_defaults),
{
    if exists_in_defaults {
        let mut msg = String::from_str("An IR named '");
        msg.append(file_name);
        msg.append("' already exists in defaults");
        return Err(msg);
    }
    Ok(())
}

/// The check before removing a custom IR file: it must exist.
pub open spec fn custom_file_present_check(file_name: Seq<char>, exists: bool) -> Result<
    (),
    Seq<char>,
> {
    if exists {
        Ok(())
    } else {
        Err("Custom IR '"@ + file_name + "' does not exist"@)
    }
}

/// Refuses to remove the custom IR `file_name` when its file does not exist.
pub fn check_custom_file_present(file_name: &str, exists: bool) -> (r: Result<(), String>)
    ensures
        unit_result(r) == custom_file_present_check(file_name@, exists),
{
    if !exists {
        let mut msg = String::from_str("Custom IR '");
        msg.append(file_name);
        msg.append("' does not exist");
        return Err(msg);
    }
    Ok(())
}

/// `names` joined with `", "` between neighbours.
pub open spec fn joined_with_commas(names: Seq<Seq<char>>) -> Seq<char>
    decreases names.len(),
{
    if names.len() == 0 {
        Seq::empty()
    } else if names.len() == 1 {
        names[0]
    } else {
        joined_with_commas(names.drop_last()) + ", "@ + names.last()
    }
}

/// The first candidate at or after `from` that is an existing directory.
pub open spec fn first_directory_from(is_dir: Seq<bool>, from: int) -> Option<int>
    decreases is_dir.len() - from,
{
    if from < 0 || from >= is_dir.len() {
        None
    } else if is_dir[from] {
        Some(from)
    } else {
        first_directory_from(is_dir, from + 1)
    }
}

/// The default IR directory among `candidates` (their display paths), where
/// `is_dir[i]` tells whether candidate `i` is an existing directory: the
/// first that is, else an error naming every candidate searched.
pub open spec fn default_ir_directory_choice(candidates: Seq<Seq<char>>, is_dir: Seq<bool>) -> Result<
    int,
    Seq<char>,
> {
    match first_directory_from(is_dir, 0) {
        Some(i) => Ok(i),
        None => Err("Could not locate default IR directory. Searched: "@ + joined_with_commas(candidates)),
    }
}

/// Picks the default IR directory: the index of the first candidate that is
/// an existing directory, or the error that lists the candidates searched.
pub fn choose_default_ir_directory(candidates: &Vec<String>, is_dir: &Vec<bool>) -> (r: Result<
    usize,
    String,
>)
    requires
        candidates.len() == is_dir.len(),
    ensures
        index_choice(r) == default_ir_directory_choice(string_views(candidates@), is_dir@),
{
    let mut i: usize = 0;
    while i < is_dir.len()
        invariant
            i <= is_dir@.len(),
            first_directory_from(is_dir@, 0) == first_directory_from(is_dir@, i as int),
        decreases is_dir@.len() - i,
    {
        if is_dir[i] {
            return Ok(i);
        }
        i = i + 1;
    }
    let mut searched = String::from_str("");
    proof {
        reveal_strlit("");
    }
    let mut k: usize = 0;
    let ghost names = string_views(candidates@);
    assert(names.take(0) =~= Seq::<Seq<char>>::empty());
    while k < candidates.len()
        invariant
            k <= candidates@.len(),
            names == string_views(candidates@),
            searched@ == joined_with_commas(names.take(k as int)),
        decreases candidates@.len() - k,
    {
        assert(names.take(k + 1).drop_last() =~= names.take(k as int));
        assert(names[k as int] == candidates@[k as int]@);
        if k > 0 {
            searched.append(", ");
        }
        searched.append(candidates[k].as_str());
        assert(k == 0 ==> searched@ =~= names.take(1)[0]);
        k = k + 1;
    }
    assert(names.take(candidates@.len() as int) =~= names);
    let mut msg = String::from_str("Could not locate default IR directory. Searched: ");
    msg.append(searched.as_str());
    Err(msg)
}

/// An index choice, seen as an integer.
pub open spec fn index_choice(r: Result<usize, String>) -> Result<int, Seq<char>> {
    match r {
        Ok(i) => Ok(i as int),
        Err(e) => Err(e@),
    }
}

} // verus!
