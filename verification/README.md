# b_lang

The lexer and the 6502 code generator of a compiler for the B language, written
in Verus and verified.

- `src/lexer/`: the tokens of B, with a model of lexing (`model.rs`) that the
  lexer's functions are proved against, the punctuation and keyword tables,
  and (`texts.rs`) how the texts that name tokens follow those tables.
- `src/codegen_common.rs`: integer and character literals as target words.
- `src/codegen/mos6502/`: the 6502 back end. `opcodes.rs` is the instruction
  table; `assembler.rs` the state of assembling (output, relocations, labels,
  names, errors); `emit.rs`, `ops.rs` and `function.rs` the code of the IR
  operations; `assembly.rs` inline assembly; `program.rs` whole programs;
  `link.rs` applying relocations; `validate.rs` the check that a program is in
  the shape the generator needs; `laws.rs` properties that hold across the
  generator's operations.
- `app/`: options, messages, writing the image and running the emulator.

Every generating function is specified by a spec function of the same shape
(`st_...`) over a mathematical view of the output, the assembler and the errors.
