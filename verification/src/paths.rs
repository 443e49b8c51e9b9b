//! The application's directory layout under its data directory. Paths are Unix text;
//! joining follows `PathBuf::join` for a relative component: a `/` is put between the
//! two unless the base is empty or already ends with one.

use vstd::prelude::*;
use crate::text::{chars_of, decimal_digits, digit_char, i64_decimal, push_i64, push_str, string_of};

verus! {

/// `PathBuf::join` with a relative component.
pub open spec fn join_spec(base: Seq<char>, comp: Seq<char>) -> Seq<char> {
    if base.len() == 0 || base.last() == '/' { base + comp } else { base + "/"@ + comp }
}

/// `base` joined with the relative component `comp`.
pub fn join(base: &str, comp: &str) -> (p: String)
    ensures
        p@ == join_spec(base@, comp@),
{
    let b = chars_of(base);
    let mut p = String::from_str(base);
    if b.len() > 0 && b[b.len() - 1] != '/' {
        push_str(&mut p, "/");
    }
    push_str(&mut p, comp);
    p
}

/// The data directory: on macOS `~/Library/Application Support/Nullbyte`; elsewhere
/// `$XDG_DATA_HOME/nullbyte` when that variable is set, else `~/.local/share/nullbyte`.
/// `None` when the home directory is needed and unknown.
pub open spec fn data_dir_spec(home: Option<Seq<char>>, xdg_data_home: Option<Seq<char>>, macos: bool) -> Option<
    Seq<char>,
> {
    if macos {
        match home {
            Some(h) => Some(join_spec(h, "Library/Application Support/Nullbyte"@)),
            None => None,
        }
    } else {
        match xdg_data_home {
            Some(x) => Some(join_spec(x, "nullbyte"@)),
            None => match home {
                Some(h) => Some(join_spec(h, ".local/share/nullbyte"@)),
                None => None,
            },
        }
    }
}

/// The data directory from the environment's `HOME` and `XDG_DATA_HOME` (see
/// [`data_dir_spec`]).
pub fn data_dir(home: Option<&str>, xdg_data_home: Option<&str>, macos: bool) -> (d: Option<String>)
    ensures
        match data_dir_spec(
            match home {
                Some(h) => Some(h@),
                None => None,
            },
            match xdg_data_home {
                Some(x) => Some(x@),
                None => None,
            },
            macos,
        ) {
            Some(p) => d matches Some(s) && s@ == p,
            None => d is None,
        },
{
    if macos {
        match home {
            Some(h) => Some(join(h, "Library/Application Support/Nullbyte")),
            None => None,
        }
    } else {
        match xdg_data_home {
            Some(x) => Some(join(x, "nullbyte")),
            None => match home {
                Some(h) => Some(join(h, ".local/share/nullbyte")),
                None => None,
            },
        }
    }
}

/// Where the libretro cores are kept.
pub fn cores_dir(data_dir: &str) -> (p: String)
    ensures
        p@ == join_spec(data_dir@, "cores"@),
{
    join(data_dir, "cores")
}

/// The system directory for BIOS files.
pub fn system_dir(data_dir: &str) -> (p: String)
    ensures
        p@ == join_spec(data_dir@, "system"@),
{
    join(data_dir, "system")
}

/// Battery saves (`.srm`).
pub fn saves_dir(data_dir: &str) -> (p: String)
    ensures
        p@ == join_spec(data_dir@, "saves"@),
{
    join(data_dir, "saves")
}

/// Save states.
pub fn states_dir(data_dir: &str) -> (p: String)
    ensures
        p@ == join_spec(data_dir@, "states"@),
{
    join(data_dir, "states")
}

/// One game's save states, keyed by its database id (unique, unlike file names).
pub fn game_states_dir(data_dir: &str, game_id: i64) -> (p: String)
    ensures
        p@ == join_spec(join_spec(data_dir@, "states"@), i64_decimal(game_id)),
{
    let mut digits: Vec<char> = Vec::new();
    push_i64(&mut digits, game_id);
    assert(digits@ =~= i64_decimal(game_id));
    join(states_dir(data_dir).as_str(), string_of(digits.as_slice()).as_str())
}

/// One game's battery save file, keyed by its database id.
pub fn game_sram_path(data_dir: &str, game_id: i64) -> (p: String)
    ensures
        p@ == join_spec(join_spec(data_dir@, "saves"@), i64_decimal(game_id) + ".srm"@),
{
    let mut digits: Vec<char> = Vec::new();
    push_i64(&mut digits, game_id);
    assert(digits@ =~= i64_decimal(game_id));
    let mut name = string_of(digits.as_slice());
    push_str(&mut name, ".srm");
    join(saves_dir(data_dir).as_str(), name.as_str())
}

/// The scraped media cache.
pub fn media_dir(data_dir: &str) -> (p: String)
    ensures
        p@ == join_spec(data_dir@, "media"@),
{
    join(data_dir, "media")
}

/// The library database file.
pub fn db_path(data_dir: &str) -> (p: String)
    ensures
        p@ == join_spec(data_dir@, "nullbyte.db"@),
{
    join(data_dir, "nullbyte.db")
}

proof fn lemma_digits_first(n: nat)
    ensures
        decimal_digits(n).len() >= 1,
        decimal_digits(n)[0] != '-',
    decreases n,
{
    if n >= 10 {
        lemma_digits_first(n / 10);
    }
}

proof fn lemma_digits_injective(a: nat, b: nat)
    requires
        decimal_digits(a) == decimal_digits(b),
    ensures
        a == b,
    decreases a,
{
    let da = decimal_digits(a);
    if a >= 10 {
        lemma_digits_first(a / 10);
    }
    if b >= 10 {
        lemma_digits_first(b / 10);
    }
    if a < 10 && b < 10 {
        assert(digit_char(a) == da[0]);
        assert(digit_char(b) == decimal_digits(b)[0]);
    } else if a >= 10 && b >= 10 {
        assert(decimal_digits(a / 10) =~= da.drop_last());
        assert(decimal_digits(b / 10) =~= decimal_digits(b).drop_last());
        lemma_digits_injective(a / 10, b / 10);
        assert(digit_char(a % 10) == da.last());
        assert(digit_char(b % 10) == decimal_digits(b).last());
    } else {
        assert(da.len() != decimal_digits(b).len());
    }
}

proof fn lemma_i64_decimal_injective(a: i64, b: i64)
    requires
        i64_decimal(a) == i64_decimal(b),
    ensures
        a == b,
{
    lemma_digits_first((if a < 0 { 0 - a } else { a as int }) as nat);
    lemma_digits_first((if b < 0 { 0 - b } else { b as int }) as nat);
    if a < 0 && b < 0 {
        assert(decimal_digits((0 - a) as nat) =~= i64_decimal(a).skip(1));
        assert(decimal_digits((0 - b) as nat) =~= i64_decimal(b).skip(1));
        lemma_digits_injective((0 - a) as nat, (0 - b) as nat);
    } else if a >= 0 && b >= 0 {
        lemma_digits_injective(a as nat, b as nat);
    } else if a < 0 {
        assert(i64_decimal(a)[0] == '-');
    } else {
        assert(i64_decimal(b)[0] == '-');
    }
}

proof fn lemma_join_cancel(base: Seq<char>, x: Seq<char>, y: Seq<char>)
    requires
        join_spec(base, x) == join_spec(base, y),
    ensures
        x == y,
{
    let sep = if base.len() == 0 || base.last() == '/' { base } else { base + "/"@ };
    assert(join_spec(base, x) == sep + x);
    assert(join_spec(base, y) == sep + y);
    assert(x =~= (sep + x).skip(sep.len() as int));
    assert(y =~= (sep + y).skip(sep.len() as int));
}

/// Two different games never share a save-state directory or a battery-save file: each is
/// keyed by the game's id, and distinct ids spell differently.
pub proof fn lemma_game_paths_are_distinct(data_dir: Seq<char>, a: i64, b: i64)
    requires
        a != b,
    ensures
        join_spec(join_spec(data_dir, "states"@), i64_decimal(a)) != join_spec(
            join_spec(data_dir, "states"@),
            i64_decimal(b),
        ),
        join_spec(join_spec(data_dir, "saves"@), i64_decimal(a) + ".srm"@) != join_spec(
            join_spec(data_dir, "saves"@),
            i64_decimal(b) + ".srm"@,
        ),
{
    if join_spec(join_spec(data_dir, "states"@), i64_decimal(a)) == join_spec(
        join_spec(data_dir, "states"@),
        i64_decimal(b),
    ) {
        lemma_join_cancel(join_spec(data_dir, "states"@), i64_decimal(a), i64_decimal(b));
        lemma_i64_decimal_injective(a, b);
    }
    if join_spec(join_spec(data_dir, "saves"@), i64_decimal(a) + ".srm"@) == join_spec(
        join_spec(data_dir, "saves"@),
        i64_decimal(b) + ".srm"@,
    ) {
        lemma_join_cancel(join_spec(data_dir, "saves"@), i64_decimal(a) + ".srm"@, i64_decimal(b) + ".srm"@);
        reveal_strlit(".srm");
        let sa = i64_decimal(a) + ".srm"@;
        let sb = i64_decimal(b) + ".srm"@;
        assert(i64_decimal(a) =~= sa.take(sa.len() - 4));
        assert(i64_decimal(b) =~= sb.take(sb.len() - 4));
        lemma_i64_decimal_injective(a, b);
    }
}

} // verus!
