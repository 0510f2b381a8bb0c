# rayz_edge

The request logic of a small web service that drives a lidar application
and a lidar configuration utility, written in Verus and verified.

- `src/` is the verified library:
  - `text`: decimal rendering of integers, characters of a string;
  - `dict`: a small text-keyed map that keeps its entries in arrival order;
  - `json`: request values and replies, as plain values;
  - `cli`: the command-line arguments of the utility and the application;
  - `util_log`: the line grammar of the utility's report and the report it builds;
  - `request`, `replay`, `handlers`: what each page answers and what it asks
    of the lidar application;
  - `mock`: the made-up rows of the log page.
- `app/` is the program around it: the HTTP routes, the child processes, the
  static file server, and the conversions between JSON and the library's values.
- `tests/` runs the library on concrete values, and checks the report grammar
  against the regular expression it stands for.
