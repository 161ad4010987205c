# circuit_data

The data of a Plonk circuit, verified with Verus.

- `src/` is the library. Every function states what it returns, and the laws that span functions are
  public proof functions whose names start with `law_`.
- `tests/` runs the compiled library on concrete circuits.
- `app/` writes circuit data and proofs to JSON, and reports errors as `anyhow` errors.

What the library leaves to its users are the algorithms of the proof system (`ProofSystem`), the
circuit builder (`ExtensionBuilder`) and the encodings of gates and witness generators
(`Serializer`).
