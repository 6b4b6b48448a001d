use vstd::prelude::*;
use vstd::string::StrSliceExecFns;
use vstd::string::StringExecFns;

verus! {

/// A character lowered to its ASCII lower-case form.
pub open spec fn ascii_lower(c: char) -> char {
    if 'A' <= c && c <= 'Z' {
        (((c as u8) + 32) as char)
    } else {
        c
    }
}

/// Whether the five characters starting at `i` spell "error", case
/// insensitively.
pub open spec fn error_at(s: Seq<char>, i: int) -> bool {
    &&& ascii_lower(s[i]) == 'e'
    &&& ascii_lower(s[i + 1]) == 'r'
    &&& ascii_lower(s[i + 2]) == 'r'
    &&& ascii_lower(s[i + 3]) == 'o'
    &&& ascii_lower(s[i + 4]) == 'r'
}

/// Whether a line mentions an error anywhere, case insensitively: the test
/// that decides which command output is fed back for a suggested fix.
pub open spec fn mentions_error(s: Seq<char>) -> bool {
    exists|i: int| 0 <= i && i + 5 <= s.len() && error_at(s, i)
}

fn lower_char(c: char) -> (r: char)
    ensures
        r == ascii_lower(c),
{
    if 'A' <= c && c <= 'Z' {
        ((c as u8) + 32) as char
    } else {
        c
    }
}

/// Scans one line of command output for a case-insensitive mention of
/// "error".
pub fn line_flags_error(line: &str) -> (r: bool)
    ensures
        r == mentions_error(line@),
{
    let n = line.unicode_len();
    if n < 5 {
        return false;
    }
    let mut i: usize = 0;
    while i <= n - 5
        invariant
            n == line@.len(),
            5 <= n,
            i <= n,
            forall|j: int| 0 <= j < i ==> !error_at(line@, j),
        decreases n - i,
    {
        let ok = lower_char(line.get_char(i)) == 'e' && lower_char(line.get_char(i + 1)) == 'r'
            && lower_char(line.get_char(i + 2)) == 'r' && lower_char(line.get_char(i + 3)) == 'o'
            && lower_char(line.get_char(i + 4)) == 'r';
        if ok {
            assert(error_at(line@, i as int));
            return true;
        }
        assert(!error_at(line@, i as int));
        i += 1;
    }
    false
}

/// Where a change-directory request goes.
#[derive(Debug)]
pub enum CdTarget {
    /// The home directory: no argument, an empty argument, or a tilde.
    Home,
    /// The named path.
    Path(String),
}

/// The decision for one change-directory request: whether to warn about
/// extra arguments, and where to go.
#[derive(Debug)]
pub struct CdDecision {
    pub too_many_args: bool,
    pub target: CdTarget,
}

/// Whether a change-directory argument list falls back to the home
/// directory.
pub open spec fn cd_goes_home(args: Seq<Seq<char>>) -> bool {
    args.len() < 2 || args[1].len() == 0 || args[1] == seq!['~']
}

/// Decides a change-directory request from its whitespace-split words: more
/// than two words draws a warning; no argument, an empty one or a tilde
/// goes home; anything else is taken as a path.
pub fn plan_cd(args: &Vec<String>) -> (r: CdDecision)
    ensures
        r.too_many_args <==> args@.len() > 2,
        (r.target is Home) <==> cd_goes_home(args@.map_values(|s: String| s@)),
        (r.target is Path) ==> args@.len() >= 2 && r.target->0@ == args@[1]@,
{
    let too_many_args = args.len() > 2;
    let ghost views = args@.map_values(|s: String| s@);
    if args.len() < 2 {
        return CdDecision { too_many_args, target: CdTarget::Home };
    }
    let arg = &args[1];
    let a = arg.as_str();
    let n = a.unicode_len();
    if n == 0 {
        return CdDecision { too_many_args, target: CdTarget::Home };
    }
    if n == 1 && a.get_char(0) == '~' {
        proof {
            assert(views[1] =~= seq!['~']);
        }
        return CdDecision { too_many_args, target: CdTarget::Home };
    }
    proof {
        if views[1] == seq!['~'] {
            assert(views[1].len() == 1);
            assert(views[1][0] == '~');
        }
    }
    CdDecision { too_many_args, target: CdTarget::Path(arg.clone()) }
}

/// The interactive prompt line: the user name, the working directory and
/// the shell marker.
pub fn shell_prompt(user: &str, workdir: &str) -> (r: String)
    ensures
        r@ == user@ + " @ "@ + workdir@ + " dsh % "@,
{
    let mut s = String::from_str(user);
    s.append(" @ ");
    s.append(workdir);
    s.append(" dsh % ");
    s
}

} // verus!
