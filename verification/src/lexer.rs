use vstd::prelude::*;
use vstd::string::*;

verus! {

/// The characters that end a word and are themselves emitted as one-character tokens.
pub open spec fn is_delimiter(c: char) -> bool {
    c == ';' || c == ' ' || c == '\t' || c == '(' || c == ')' || c == ',' || c == '*'
}

/// The word accumulated in `s[start..i]`, as zero or one token.
pub open spec fn pending(s: Seq<char>, start: int, i: int) -> Seq<Seq<char>> {
    if start < i {
        seq![s.subrange(start, i)]
    } else {
        Seq::empty()
    }
}

/// Tokens produced from position `i` onwards, when the word being accumulated began at `start`.
/// A word still open when the text ends is not emitted.
pub open spec fn scan(s: Seq<char>, start: int, i: int) -> Seq<Seq<char>>
    decreases s.len() - i,
{
    if i >= s.len() || start < 0 || start > i {
        Seq::empty()
    } else if s[i] == '\n' {
        pending(s, start, i) + scan(s, i + 1, i + 1)
    } else if is_delimiter(s[i]) {
        pending(s, start, i).push(seq![s[i]]) + scan(s, i + 1, i + 1)
    } else {
        scan(s, start, i + 1)
    }
}

/// The token sequence of a script.
pub open spec fn token_texts(s: Seq<char>) -> Seq<Seq<char>> {
    scan(s, 0, 0)
}

/// Whether `c` is one of the delimiter characters.
pub fn delimiter(c: char) -> (r: bool)
    ensures
        r == is_delimiter(c),
{
    c == ';' || c == ' ' || c == '\t' || c == '(' || c == ')' || c == ',' || c == '*'
}

/// Splits a script into its tokens.
pub fn tokenize(input: &str) -> (list: Vec<String>)
    ensures
        list.deep_view() == token_texts(input@),
{
    let n: usize = input.unicode_len();
    let mut list: Vec<String> = Vec::new();
    let mut start: usize = 0;
    let mut i: usize = 0;
    assert(list.deep_view() =~= Seq::<Seq<char>>::empty());
    while i < n
        invariant
            n == input@.len(),
            0 <= start <= i <= n,
            list.deep_view() + scan(input@, start as int, i as int) == token_texts(input@),
        decreases n - i,
    {
        let c: char = input.get_char(i);
        let ghost before = list.deep_view();
        let ghost rest = scan(input@, i as int + 1, i as int + 1);
        if c == '\n' || delimiter(c) {
            if start < i {
                let word = String::from_str(input.substring_char(start, i));
                list.push(word);
            }
            let ghost mid = list.deep_view();
            assert(mid =~= before + pending(input@, start as int, i as int));
            if c != '\n' {
                let mark = String::from_str(input.substring_char(i, i + 1));
                assert(mark@ =~= seq![c]);
                list.push(mark);
                assert(list.deep_view() =~= mid.push(seq![c]));
                assert(list.deep_view() + rest =~= before + (pending(
                    input@,
                    start as int,
                    i as int,
                ).push(seq![c]) + rest));
            } else {
                assert(list.deep_view() + rest =~= before + (pending(
                    input@,
                    start as int,
                    i as int,
                ) + rest));
            }
            start = i + 1;
        }
        i = i + 1;
    }
    list
}

} // verus!
