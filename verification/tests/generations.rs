/*!
 * Tests for the generation tag used by generational variants.
 */
use bloom::Generation;
use bloom::GenerationValues;

#[test]
/// The generation tag renders as its letter.
fn test_generation_as_str() {
    assert_eq!(GenerationValues::A.as_str(), "A");
    assert_eq!(GenerationValues::B.as_str(), "B");
}

#[test]
/// The Generation alias names the same enum.
fn test_generation_alias() {
    let g: Generation = GenerationValues::A;
    assert!(g == GenerationValues::A);
    assert!(g != GenerationValues::B);
}
