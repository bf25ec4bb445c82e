# Verified voting board and runtime modules

`src/` is a Verus library with these modules:

- `asignment5`: a question-and-answer board with up- and down-votes, over
  `text_map`, a map keyed by text;
- `frame`: origins, the origin checks, and storage weights;
- `template`, `loosely_coupling`, `tightly_coupling`: a module storing two
  numbers and two modules that use it, one through a trait and one through
  its storage;
- `my_timestamp`: the block timestamp, set once per block by an inherent;
- `kitties_weights`: the weight of creating a kitty.

Each operation takes the caller or origin as an argument and returns the event
it emits or the error it refuses with; storage is the state the operation
changes. `app/` holds the runtime side: the checks the runtime makes with a
panic before calling the library, and the conversion of times to `Duration`.
