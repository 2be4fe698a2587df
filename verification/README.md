# isle

Generates Rust source for instruction selection. The input is a program after analysis: its types,
its terms, and for each term a decision trie over the rules that rewrite it. The output is one Rust
file with a trait for the external constructors and extractors, the enums of the program, and one
function for each term whose constructor is generated.

`isle::codegen::codegen` is the entry point. Its contract gives the whole file character by
character, and says on which inputs it may be called: all names, types, terms, files and bound
values that the input refers to have to be there.

- `ir`, `sema`, `pos`, `trie`: the input, and the order in which the edges of a trie are tried
- `output`: the text that each part of the input stands for
- `codegen`: the functions that write it
- `text`, `order`, `group`, `tries`, `context`: what they are built from
- `laws`: what holds of the generated source as a whole
