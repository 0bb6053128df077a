//! Construction of the URLs that the application fetches: API endpoints
//! keyed by a user identifier, and resource (image) addresses derived from
//! short icon names.  Every resource URL doubles as its cache key.

use vstd::prelude::*;
use vstd::string::*;

verus! {

/// Base address of the remote API.
pub open spec fn spec_api_base() -> Seq<char> {
    "https://akasha.cv/api"@
}

/// Base address under which short icon names resolve to images.
pub open spec fn spec_icon_base() -> Seq<char> {
    "https://enka.network/ui/"@
}

/// Appends an endpoint path to the fixed API base address.
pub fn api_url(name: &str) -> (url: String)
    ensures
        url@ == spec_api_base() + name@,
{
    let base: String = String::from_str("https://akasha.cv/api");
    base.concat(name)
}

/// The endpoint that lists a user's character builds.
pub open spec fn spec_builds_path() -> Seq<char> {
    "/builds/?sort=critValue&order=-1&size=20&page=1&filter=&uids=&p=&fromId=&li=&uid="@
}

/// URL of the character-build document for `user_id`.
pub fn builds_url(user_id: &str) -> (url: String)
    ensures
        url@ == spec_api_base() + spec_builds_path() + user_id@,
{
    let path: String = String::from_str(
        "/builds/?sort=critValue&order=-1&size=20&page=1&filter=&uids=&p=&fromId=&li=&uid=",
    );
    let path = path.concat(user_id);
    api_url(path.as_str())
}

/// URL of the ranking-calculations document for `user_id`.
pub fn calculations_url(user_id: &str) -> (url: String)
    ensures
        url@ == spec_api_base() + "/getCalculationsForUser/"@ + user_id@,
{
    let path: String = String::from_str("/getCalculationsForUser/");
    let path = path.concat(user_id);
    api_url(path.as_str())
}

/// URL that asks the remote service to refresh its data for `user_id`.
pub fn refresh_url(user_id: &str) -> (url: String)
    ensures
        url@ == spec_api_base() + "/user/refresh/"@ + user_id@,
{
    let path: String = String::from_str("/user/refresh/");
    let path = path.concat(user_id);
    api_url(path.as_str())
}

/// Whether `s` begins with the four characters `http`, in which case it is
/// taken to be a full URL already.
pub open spec fn spec_starts_with_http(s: Seq<char>) -> bool {
    s.len() >= 4 && s.subrange(0, 4) == "http"@
}

/// Checks whether an icon name is already a full URL.
pub fn starts_with_http(s: &str) -> (r: bool)
    ensures
        r == spec_starts_with_http(s@),
{
    proof {
        reveal_strlit("http");
    }
    let n = s.unicode_len();
    if n < 4 {
        return false;
    }
    let m = s.get_char(0) == 'h' && s.get_char(1) == 't' && s.get_char(2) == 't' && s.get_char(3)
        == 'p';
    proof {
        if m {
            assert(s@.subrange(0, 4) =~= "http"@);
        } else {
            assert(s@.subrange(0, 4) != "http"@) by {
                if s@.subrange(0, 4) == "http"@ {
                    assert(s@[0] == s@.subrange(0, 4)[0]);
                    assert(s@[1] == s@.subrange(0, 4)[1]);
                    assert(s@[2] == s@.subrange(0, 4)[2]);
                    assert(s@[3] == s@.subrange(0, 4)[3]);
                }
            }
        }
    }
    m
}

/// The cache key of an icon: a name that is already a full URL is used
/// verbatim, any other name resolves to an image under the icon base address.
pub open spec fn spec_icon_url(name: Seq<char>) -> Seq<char> {
    if spec_starts_with_http(name) {
        name
    } else {
        spec_icon_base() + name + ".png"@
    }
}

/// Derives the resource URL — and so the cache key — of an icon name.
pub fn icon_url(name: &str) -> (url: String)
    ensures
        url@ == spec_icon_url(name@),
{
    if starts_with_http(name) {
        name.to_owned()
    } else {
        let base: String = String::from_str("https://enka.network/ui/");
        let with_name = base.concat(name);
        with_name.concat(".png")
    }
}

/// The icon name of a weapon type's normal attack.  Unknown weapon types
/// fall back to the one-handed sword's icon.
pub open spec fn spec_normal_attack_icon(weapon_type: Seq<char>) -> Seq<char> {
    if weapon_type == "WeAPON_BOW"@ {
        "Skill_A_02"@
    } else if weapon_type == "WeAPON_POLE"@ {
        "Skill_A_03"@
    } else if weapon_type == "WeAPON_CLAYMORE"@ {
        "Skill_A_04"@
    } else if weapon_type == "WeAPON_CATALYST"@ {
        "Skill_A_05"@
    } else {
        "Skill_A_01"@
    }
}

/// Picks the normal-attack icon name for a weapon type, as the talent panel
/// requests it.
pub fn normal_attack_icon(weapon_type: &str) -> (r: String)
    ensures
        r@ == spec_normal_attack_icon(weapon_type@),
{
    let w: String = String::from_str(weapon_type);
    if w == String::from_str("WeAPON_BOW") {
        String::from_str("Skill_A_02")
    } else if w == String::from_str("WeAPON_POLE") {
        String::from_str("Skill_A_03")
    } else if w == String::from_str("WeAPON_CLAYMORE") {
        String::from_str("Skill_A_04")
    } else if w == String::from_str("WeAPON_CATALYST") {
        String::from_str("Skill_A_05")
    } else {
        String::from_str("Skill_A_01")
    }
}

/// What follows the last occurrence of `c` in `s` (all of `s` when `c` does
/// not occur).
pub open spec fn spec_after_last(s: Seq<char>, c: char) -> Seq<char>
    decreases s.len(),
{
    if s.len() == 0 {
        s
    } else if s.last() == c {
        Seq::empty()
    } else {
        spec_after_last(s.drop_last(), c).push(s.last())
    }
}

/// What precedes the first occurrence of `c` in `s` (all of `s` when `c`
/// does not occur).
pub open spec fn spec_before_first(s: Seq<char>, c: char) -> Seq<char>
    decreases s.len(),
{
    if s.len() == 0 {
        s
    } else if s.first() == c {
        Seq::empty()
    } else {
        seq![s.first()] + spec_before_first(s.drop_first(), c)
    }
}

proof fn lemma_after_last_at(s: Seq<char>, c: char, i: int)
    requires
        0 <= i < s.len(),
        s[i] == c,
        forall|j: int| i < j < s.len() ==> s[j] != c,
    ensures
        spec_after_last(s, c) == s.subrange(i + 1, s.len() as int),
    decreases s.len(),
{
    if i == s.len() - 1 {
        assert(s.subrange(i + 1, s.len() as int) =~= Seq::empty());
    } else {
        lemma_after_last_at(s.drop_last(), c, i);
        assert(s.drop_last().subrange(i + 1, s.len() - 1) =~= s.subrange(i + 1, s.len() - 1));
        assert(s.subrange(i + 1, s.len() - 1).push(s.last()) =~= s.subrange(i + 1, s.len() as int));
    }
}

proof fn lemma_after_last_absent(s: Seq<char>, c: char)
    requires
        forall|j: int| 0 <= j < s.len() ==> s[j] != c,
    ensures
        spec_after_last(s, c) == s,
    decreases s.len(),
{
    if s.len() > 0 {
        lemma_after_last_absent(s.drop_last(), c);
        assert(s.drop_last().push(s.last()) =~= s);
    }
}

proof fn lemma_before_first_at(s: Seq<char>, c: char, i: int)
    requires
        0 <= i < s.len(),
        s[i] == c,
        forall|j: int| 0 <= j < i ==> s[j] != c,
    ensures
        spec_before_first(s, c) == s.subrange(0, i),
    decreases s.len(),
{
    if i == 0 {
        assert(s.subrange(0, 0) =~= Seq::empty());
    } else {
        lemma_before_first_at(s.drop_first(), c, i - 1);
        assert(s.drop_first().subrange(0, i - 1) =~= s.subrange(1, i));
        assert(seq![s.first()] + s.subrange(1, i) =~= s.subrange(0, i));
    }
}

proof fn lemma_before_first_absent(s: Seq<char>, c: char)
    requires
        forall|j: int| 0 <= j < s.len() ==> s[j] != c,
    ensures
        spec_before_first(s, c) == s,
    decreases s.len(),
{
    if s.len() > 0 {
        lemma_before_first_absent(s.drop_first(), c);
        assert(seq![s.first()] + s.drop_first() =~= s);
    }
}

/// A character's short name as it appears inside its icon name: what stands
/// after the last `_` and before the next `.`, as `UI_AvatarIcon_Hutao`
/// names `Hutao`.  The talent, constellation and art URLs are derived from
/// it.
pub open spec fn spec_short_name(s: Seq<char>) -> Seq<char> {
    spec_before_first(spec_after_last(s, '_'), '.')
}

/// Extracts the short name from an icon name.
pub fn short_name_of(icon_name: &str) -> (r: String)
    ensures
        r@ == spec_short_name(icon_name@),
{
    let n = icon_name.unicode_len();
    // one past the last `_`, or 0 when there is none
    let mut start: usize = 0;
    let mut i: usize = 0;
    while i < n
        invariant
            n == icon_name@.len(),
            i <= n,
            0 <= start <= i,
            start == 0 || icon_name@[start - 1] == '_',
            forall|j: int| start <= j < i ==> icon_name@[j] != '_',
        decreases n - i,
    {
        if icon_name.get_char(i) == '_' {
            start = i + 1;
        }
        i = i + 1;
    }
    proof {
        if start == 0 {
            lemma_after_last_absent(icon_name@, '_');
            assert(icon_name@.subrange(0, n as int) =~= icon_name@);
        } else {
            lemma_after_last_at(icon_name@, '_', start - 1);
        }
    }
    // the first `.` at or after `start`, or the end when there is none
    let mut end: usize = start;
    while end < n && icon_name.get_char(end) != '.'
        invariant
            n == icon_name@.len(),
            start <= end <= n,
            forall|j: int| start <= j < end ==> icon_name@[j] != '.',
        decreases n - end,
    {
        end = end + 1;
    }
    proof {
        let tail = icon_name@.subrange(start as int, n as int);
        if end == n {
            lemma_before_first_absent(tail, '.');
        } else {
            lemma_before_first_at(tail, '.', end - start);
        }
        assert(tail.subrange(0, end - start) =~= icon_name@.subrange(start as int, end as int));
    }
    icon_name.substring_char(start, end).to_owned()
}

/// File suffix of the `i`-th constellation icon, `_01.png` through `_06.png`.
pub open spec fn spec_constellation_suffix(i: u64) -> Seq<char> {
    if i == 1 {
        "_01.png"@
    } else if i == 2 {
        "_02.png"@
    } else if i == 3 {
        "_03.png"@
    } else if i == 4 {
        "_04.png"@
    } else if i == 5 {
        "_05.png"@
    } else {
        "_06.png"@
    }
}

/// URL of a character's `i`-th constellation icon (of the six).
pub fn constellation_url(short_name: &str, i: u64) -> (url: String)
    requires
        1 <= i <= 6,
    ensures
        url@ == spec_icon_base() + "UI_Talent_S_"@ + short_name@ + spec_constellation_suffix(i),
{
    let base: String = String::from_str("https://enka.network/ui/");
    let named = base.concat("UI_Talent_S_").concat(short_name);
    if i == 1 {
        named.concat("_01.png")
    } else if i == 2 {
        named.concat("_02.png")
    } else if i == 3 {
        named.concat("_03.png")
    } else if i == 4 {
        named.concat("_04.png")
    } else if i == 5 {
        named.concat("_05.png")
    } else {
        named.concat("_06.png")
    }
}

/// URL of a character's elemental-skill icon.
pub fn skill_url(short_name: &str) -> (url: String)
    ensures
        url@ == spec_icon_base() + "Skill_S_"@ + short_name@ + "_01.png"@,
{
    let base: String = String::from_str("https://enka.network/ui/");
    base.concat("Skill_S_").concat(short_name).concat("_01.png")
}

/// URL of a character's elemental-burst icon.
pub fn burst_url(short_name: &str) -> (url: String)
    ensures
        url@ == spec_icon_base() + "Skill_E_"@ + short_name@ + "_01.png"@,
{
    let base: String = String::from_str("https://enka.network/ui/");
    base.concat("Skill_E_").concat(short_name).concat("_01.png")
}

/// URL of a character's full-size gacha art.
pub fn character_art_url(short_name: &str) -> (url: String)
    ensures
        url@ == spec_icon_base() + "UI_Gacha_AvatarImg_"@ + short_name@ + ".png"@,
{
    let base: String = String::from_str("https://enka.network/ui/");
    base.concat("UI_Gacha_AvatarImg_").concat(short_name).concat(".png")
}

} // verus!
