//! The command line's one convention: a query that begins with `search `
//! asks for a search only.

use vstd::prelude::*;
use vstd::string::StrSliceExecFns;

verus! {

/// What the user asked for.
#[derive(Clone, Copy, Debug, PartialEq, Eq)]
pub enum Command<'a> {
    /// List the catalog entries that match the text.
    Search(&'a str),
    /// Play or render the text.
    Play(&'a str),
}

/// The word that asks for a search, with the space that ends it.
pub open spec fn search_word() -> Seq<char> {
    seq!['s', 'e', 'a', 'r', 'c', 'h', ' ']
}

/// Whether the input begins with the search word.
pub open spec fn asks_search(input: Seq<char>) -> bool {
    input.len() >= 7 && input.take(7) == search_word()
}

/// Reads the input. One that begins with the search word is a search for
/// what follows the word; any other is played whole.
pub fn parse_command<'a>(input: &'a str) -> (command: Command<'a>)
    ensures
        match command {
            Command::Search(text) => asks_search(input@) && text@ == input@.skip(7),
            Command::Play(text) => !asks_search(input@) && text@ == input@,
        },
{
    let length = input.unicode_len();
    if length < 7 {
        return Command::Play(input);
    }
    let matches = input.get_char(0) == 's' && input.get_char(1) == 'e' && input.get_char(2) == 'a'
        && input.get_char(3) == 'r' && input.get_char(4) == 'c' && input.get_char(5) == 'h'
        && input.get_char(6) == ' ';
    if matches {
        assert(input@.take(7) =~= search_word());
        let text = input.substring_char(7, length);
        assert(text@ =~= input@.skip(7));
        Command::Search(text)
    } else {
        assert(input@.take(7) != search_word()) by {
            if input@.take(7) == search_word() {
                assert(forall|i: int| 0 <= i < 7 ==> input@.take(7)[i] == input@[i]);
                assert(input@.take(7)[0] == 's');
                assert(input@.take(7)[1] == 'e');
                assert(input@.take(7)[2] == 'a');
                assert(input@.take(7)[3] == 'r');
                assert(input@.take(7)[4] == 'c');
                assert(input@.take(7)[5] == 'h');
                assert(input@.take(7)[6] == ' ');
            }
        }
        Command::Play(input)
    }
}

} // verus!
