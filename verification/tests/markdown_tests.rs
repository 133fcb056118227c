//! Document conversion of rendered skeleton text.

use ripdoc::markdown::{rust_to_markdown, strip_outer_module};

#[test]
fn core_doc_comments_are_lifted_outside_code() {
    let source = "\
/// example docs
pub struct Foo {
    /// field docs
    pub field: i32,
}
";

    let expected = r#"example docs

```rust
pub struct Foo {
    // field docs
    pub field: i32,
}
```"#;

    assert_eq!(rust_to_markdown(source), expected.trim());
}

#[test]
fn core_preserves_blank_doc_lines() {
    let source = "\
///
/// multiple paragraphs
pub struct Foo;
";

    let expected = r#"

multiple paragraphs

```rust
pub struct Foo;
```"#;

    assert_eq!(rust_to_markdown(source), expected.trim());
}

#[test]
fn core_closes_unbalanced_doc_fences() {
    let source = "\
/// # Example
///
/// ```
/// let markdown = \"**very** _important\".into();
pub fn set_input(&mut self) {}
";

    let expected = r#"# Example

```rust
let markdown = "**very** _important".into();
```

```rust
pub fn set_input(&mut self) {}
```"#;

    assert_eq!(rust_to_markdown(source), expected.trim());
}

#[test]
fn core_removes_uniform_leading_indentation() {
    let source = "\
\tpub fn alpha() {}
\tpub fn beta() {}
";

    let expected = r#"```rust
pub fn alpha() {}
pub fn beta() {}
```"#;

    assert_eq!(rust_to_markdown(source), expected);
}

#[test]
fn core_strips_outer_module_wrapper() {
    let source = "\
pub mod example {
    pub struct Inner;
}
";

    let stripped = strip_outer_module(source);
    assert_eq!(stripped.trim(), "pub struct Inner;");
}

#[test]
fn core_hides_doctest_setup_lines() {
    let source = "\
/// ```
/// # fn helper() {}
/// let value = helper();
/// # assert_eq!(value, ());
/// ```
pub fn demo() {}
";

    let expected = r#"```rust
let value = helper();
```

```rust
pub fn demo() {}
```"#;

    assert_eq!(rust_to_markdown(source), expected);
}

#[test]
fn core_normalizes_compile_fail_blocks() {
    let source = "\
/// ```compile_fail
/// fn main() {
///     panic!(\"oops\");
/// }
/// ```
pub fn demo() {}
";

    let expected = r#"```rust
fn main() {
    panic!("oops");
}
```

```rust
pub fn demo() {}
```"#;

    assert_eq!(rust_to_markdown(source), expected);
}

#[test]
fn markdown_doc_comments_are_lifted_outside_code() {
    let source = "\
/// example docs
pub struct Foo {
    /// field docs
    pub field: i32,
}
";

    let expected = r#"example docs

```rust
pub struct Foo {
    // field docs
    pub field: i32,
}
```"#;

    assert_eq!(rust_to_markdown(source), expected.trim());
}

#[test]
fn markdown_preserves_blank_doc_lines() {
    let source = "\
///
/// multiple paragraphs
pub struct Foo;
";

    let expected = r#"

multiple paragraphs

```rust
pub struct Foo;
```"#;

    assert_eq!(rust_to_markdown(source), expected.trim());
}

#[test]
fn markdown_closes_unbalanced_doc_fences() {
    let source = "\
/// # Example
///
/// ```
/// let markdown = \"**very** _important\".into();
pub fn set_input(&mut self) {}
";

    let expected = r#"# Example

```rust
let markdown = "**very** _important".into();
```

```rust
pub fn set_input(&mut self) {}
```"#;

    assert_eq!(rust_to_markdown(source), expected.trim());
}

#[test]
fn markdown_removes_uniform_leading_indentation() {
    let source = "\
\tpub fn alpha() {}
\tpub fn beta() {}
";

    let expected = r#"```rust
pub fn alpha() {}
pub fn beta() {}
```"#;

    assert_eq!(rust_to_markdown(source), expected);
}

#[test]
fn markdown_strips_outer_module_wrapper() {
    let source = "\
pub mod example {
    pub struct Inner;
}
";

    let stripped = strip_outer_module(source);
    assert_eq!(stripped.trim(), "pub struct Inner;");
}

#[test]
fn markdown_hides_doctest_setup_lines() {
    let source = "\
/// ```
/// # fn helper() {}
/// let value = helper();
/// # assert_eq!(value, ());
/// ```
pub fn demo() {}
";

    let expected = r#"```rust
let value = helper();
```

```rust
pub fn demo() {}
```"#;

    assert_eq!(rust_to_markdown(source), expected);
}

#[test]
fn markdown_normalizes_compile_fail_blocks() {
    let source = "\
/// ```compile_fail
/// fn main() {
///     panic!(\"oops\");
/// }
/// ```
pub fn demo() {}
";

    let expected = r#"```rust
fn main() {
    panic!("oops");
}
```

```rust
pub fn demo() {}
```"#;

    assert_eq!(rust_to_markdown(source), expected);
}

#[test]
fn preserves_list_structure() {
    let source = "\
/// Shopping list
/// - Apples
/// - Bananas
///
/// Notes follow.
pub struct Cart;
";

    let expected = r#"Shopping list

- Apples
- Bananas

Notes follow.

```rust
pub struct Cart;
```"#;

    assert_eq!(rust_to_markdown(source), expected.trim());
}
