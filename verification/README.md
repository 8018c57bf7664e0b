# dioxus_primitives

The state, keyboard handling and text decisions behind a set of accessible UI
primitives (accordion, calendar and date pickers, combobox, select, menus, navigation
bar, radio group, one-time-password input, drag-and-drop list, virtualised list, ...),
written in Verus with their behaviour stated in `requires` / `ensures` contracts and
proved.

## Layout

- `src/` — the verified library. Each module holds one part of the primitives:
  - `focus`: roving focus over registered items;
  - `selection`, `selectable`, `combobox`, `select`, `text_search`: listbox options,
    selection, filtering, typeahead and keyboard-layout detection;
  - `accordion`, `radio`, `menu`, `navbar`: open state and keyboard navigation;
  - `calendar`, `calendar_nav`, `date_segment`, `date_picker`: dates, the month grid,
    keyboard moves in the grid, typed date segments and date ranges;
  - `otp`: the one-time-password pattern and editing rules;
  - `drag_drop`, `recycle`: reordering and the layout arithmetic of a virtualised list;
  - `attributes`: merging attribute lists;
  - `controlled`, `overlay`, `pointer`, `badge`, `styling`, `text`: controlled state,
    ids, the Escape listener stack, pointer tracking, small rendering decisions and
    text building.
- `tests/` — tests of the library on concrete values.
- `app/` — the parts that work on floating-point numbers (colours, distances, pointer
  movement), on values of any type behind `Any`, on messages from the browser, or on
  the clock. They call the library for every decision it can make.

Dates rely on the `time` crate, colours on `palette`, and popup placements in `app/` on
`floating-ui-utils`.
