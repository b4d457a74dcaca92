use melange::dune::quotes::{count, get_quote};
use melange::dune::terminology::term;

#[test]
fn quotes_rotate() {
    assert_eq!(count(), 15);
    assert_eq!(get_quote(0), "Fear is the mind-killer.");
    assert_eq!(get_quote(1), "The spice must flow.");
    assert_eq!(get_quote(15), get_quote(0));
}

#[test]
fn terms() {
    assert_eq!(term("max_safe_context"), "Horizon Limit");
    assert_eq!(term("available_ram"), "Memory Reserves");
    assert_eq!(term("something_else"), "something_else");
}
