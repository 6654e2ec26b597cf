//! Input classification and terminal-size validation: the decisions of the
//! presentation layer. Reading the keyboard and drawing are the caller's;
//! they hand the pressed key in and take the verdict back.

use vstd::prelude::*;
use vstd::string::StringExecFns;

verus! {

/// The smallest terminal height the dashboard accepts.
pub const MIN_HEIGHT: u16 = 15;

/// The smallest terminal width the dashboard accepts.
pub const MIN_WIDTH: u16 = 80;

/// A keyboard event, reduced to what the dashboard reads of it.
pub enum KeyInput {
    /// A character key.
    Char(char),
    /// The escape key.
    Esc,
    /// Any other key; ignored.
    Other,
}

/// The key signals quit: `q` or Escape.
pub open spec fn quits(key: Option<KeyInput>) -> bool {
    match key {
        Some(KeyInput::Char(c)) => c == 'q',
        Some(KeyInput::Esc) => true,
        Some(KeyInput::Other) => false,
        None => false,
    }
}

/// Classifies one polled keyboard event: `true` exactly for the two quit
/// keys, `q` and Escape; every other key, and no key, is ignored.
pub fn process_keypress(key: Option<KeyInput>) -> (quit: bool)
    ensures
        quit == quits(key),
{
    if let Some(key_code) = key {
        match key_code {
            KeyInput::Char(c) => c == 'q',
            KeyInput::Esc => true,
            KeyInput::Other => false,
        }
    } else {
        false
    }
}

/// Accepts a terminal size exactly when it reaches the minimum width and
/// height; a smaller terminal is rejected with a message.
pub fn validate_terminal_size(width: u16, height: u16) -> (r: Result<(u16, u16), String>)
    ensures
        r is Ok <==> (width >= MIN_WIDTH && height >= MIN_HEIGHT),
        r is Ok ==> r->Ok_0 == (width, height),
        r is Err ==> r->Err_0@ == "terminal too small"@,
{
    if height < MIN_HEIGHT || width < MIN_WIDTH {
        return Err(String::from_str("terminal too small"));
    }
    Ok((width, height))
}

} // verus!
