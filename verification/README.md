# forth_shell

A serial terminal for a Forth running on a CH32V203 microcontroller. Besides
passing keys to the target and showing its output, it asks the target for its
dictionary (`showWords`, and `showLastWord` after each new definition) and
shows every word with the memory cells of its definition, labelling the cells
that hold the implementation address of another word.

- `src/` is the library, verified with Verus: text and hexadecimal handling
  (`text`, `hex`), the dictionary (`forth_state`) and its listing parser
  (`show_words`), the three connection states (`reset_state`,
  `handshake_state`, `connected_state`) and the state machine that joins them
  (`session`). Regular-expression searches go through the `regex` crate
  (`patterns`).
- `app/` is the program: serial port, keyboard and screen.
- `tests/` exercise the library on concrete values.

The dictionary (`ForthState`) keeps its words in a vector in the order in
which they were first entered, with no two words of the same name, rather
than in a hash map keyed by name: with string keys a map's contents cannot be
modelled for the proofs, and a map's iteration order (which decides the row
order and which label a shared implementation address gets) is left open.
The map form was not tried in Verus; the vector was chosen for these reasons.
