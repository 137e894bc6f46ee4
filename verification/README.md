# dyncall

Dynamic calls into C code: functions whose argument and return types are only
known at run time are called through the `dyncall` C library.

- `src/` is the verified library (Verus). It decides everything that does not
  need the C library:
  - `ctype`: the C types (`Type`), their sizes, alignments and signature codes,
    and `Struct`, a structure laid out as a `#[repr(C)]` struct;
  - `layout`: the layout rules of such a structure and their laws;
  - `abi`: the calling conventions, looked up by name;
  - `call`: the steps of a call (which argument is pushed how, from which
    bytes of the argument block) and the growth of the caller's argument buffer.
- `app/` holds the bindings to the C library (`Dll`, `DynCaller`, `call_func`,
  `call_function!`), which carry out those decisions.
- `tests/` runs the library on concrete values.
